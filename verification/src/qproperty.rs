//! The `qproperty!` declarations of a `#[qobject]` type: their grammar,
//! their validation against the type's signals and accessors, and the plan
//! of the meta-object registration, read and write code generated for them.
//!
//! The declaration is read from a token sequence: a string literal with the
//! property's QML name, then comma-separated attributes
//! `Read = getter`, `Write = setter`, `Notify = signal`, `Member = field`,
//! and the flags `Constant` and `Default`. A trailing comma is allowed.
use vstd::prelude::*;
use vstd::string::StrSliceExecFns;

verus! {

/// A token of a `qproperty!` body.
#[derive(Debug)]
pub enum Token {
    /// A string literal, by its value.
    Str(String),
    /// An identifier.
    Ident(String),
    /// A punctuation character.
    Punct(char),
    /// Any other token.
    Other,
}

/// The mathematical value of a [`Token`].
pub enum TokenView {
    Str(Seq<char>),
    Ident(Seq<char>),
    Punct(char),
    Other,
}

impl View for Token {
    type V = TokenView;

    open spec fn view(&self) -> TokenView {
        match self {
            Token::Str(s) => TokenView::Str(s@),
            Token::Ident(s) => TokenView::Ident(s@),
            Token::Punct(c) => TokenView::Punct(*c),
            Token::Other => TokenView::Other,
        }
    }
}

/// The attribute keywords of a `qproperty!` body.
#[derive(Clone, Copy, PartialEq, Eq, Structural, Debug)]
pub enum Keyword {
    Read,
    Write,
    Notify,
    Member,
    Constant,
    Default,
}

/// Where a property's type was deduced from.
#[derive(Clone, Copy, PartialEq, Eq, Structural, Debug)]
pub enum Accessor {
    Getter,
    Setter,
    Member,
}

/// How a value of a type is passed.
#[derive(Clone, Copy, PartialEq, Eq, Structural, Debug)]
pub enum ValuePass {
    ByValue,
    ByConstReference,
    ByMutReference,
}

/// Where in the declaration an error points.
#[derive(Clone, Copy, PartialEq, Eq, Structural, Debug)]
pub enum Site {
    /// The token at this index of the body.
    Token(usize),
    /// The property's name.
    Name,
    /// The `Read` attribute.
    Read,
    /// The `Write` attribute.
    Write,
    /// The `Notify` attribute.
    Notify,
    /// The `Member` attribute.
    Member,
    /// The `Default` flag.
    Default,
    /// The attributes on the macro.
    Attribute,
    /// The whole declaration.
    Whole,
}

/// What is wrong with a property declaration.
#[derive(Clone, Copy, PartialEq, Eq, Structural, Debug)]
pub enum ErrorKind {
    /// Attributes on the `qproperty!` macro are not supported.
    AttributesNotSupported,
    /// The body does not start with a string literal.
    MissingName,
    /// A comma was expected.
    ExpectedComma,
    /// An identifier was expected.
    ExpectedIdentifier,
    /// The identifier is not a qproperty attribute.
    UnsupportedAttribute,
    /// The attribute was already given.
    DuplicateAttribute(Keyword),
    /// The attribute is not of the form `Name = identifier`.
    MalformedAttribute(Keyword),
    /// The property name is empty.
    EmptyName,
    /// The property name does not begin with a lower case letter.
    NameNotLowercase(char),
    /// The property name holds a character other than an ASCII letter or
    /// digit or `_`.
    IllegalNameChar(char),
    /// `Member` is given together with both `Read` and `Write`.
    MemberWithReadAndWrite,
    /// A constant property has a `Write` method.
    ConstantWithWrite,
    /// A constant property has a `Notify` signal.
    ConstantWithNotify,
    /// The `Notify` signal is not among the type's signals.
    SignalNotFound,
    /// The property's type and the notify signal's argument type differ; the
    /// signal is the one at this index.
    TypeMismatch(usize),
    /// The notify signal has more than one typed argument.
    BadNotifyArity,
    /// Two properties are marked `Default`: the first and the second one,
    /// by index.
    MultipleDefault(usize, usize),
    /// The types deduced from two accessors differ.
    InconsistentTypes(Accessor, Accessor),
    /// The type can be deduced neither from an accessor nor from a member.
    UndeducibleType,
    /// The signal given for registration does not match the notify signal.
    SignalNameMismatch,
    /// The getter's type was not deduced.
    GetterTypeMissing,
    /// Neither `Read` nor `Member` is given.
    NoReadOrMember,
    /// The setter's type was not deduced.
    SetterTypeMissing,
    /// No signal was given for the notify signal.
    SignalInfoMissing,
    /// The signal given is not the notify signal.
    InconsistentSignalName,
}

/// An error in a property declaration and where it points.
#[derive(Clone, Copy, PartialEq, Eq, Structural, Debug)]
pub struct PropertyError {
    pub kind: ErrorKind,
    pub site: Site,
}

/// A Rust type as the generator sees it: the referent's text and the
/// references around it, outermost first (`true` for `&mut`).
#[derive(Debug)]
pub struct PropType {
    pub base: String,
    pub refs: Vec<bool>,
}

/// The mathematical value of a [`PropType`].
pub struct TypeView {
    pub base: Seq<char>,
    pub refs: Seq<bool>,
}

impl View for PropType {
    type V = TypeView;

    open spec fn view(&self) -> TypeView {
        TypeView { base: self.base@, refs: self.refs@ }
    }
}

/// A signal of the type, as the property logic sees it.
#[derive(Debug)]
pub struct QSignalInfo {
    /// The Rust method name.
    pub rust_name: String,
    /// The name in QML.
    pub qml_name: String,
    /// The types of the typed arguments (the receiver excluded).
    pub arg_types: Vec<PropType>,
}

/// The mathematical value of a [`QSignalInfo`].
pub struct SignalView {
    pub rust_name: Seq<char>,
    pub qml_name: Seq<char>,
    pub arg_types: Seq<TypeView>,
}

impl View for QSignalInfo {
    type V = SignalView;

    open spec fn view(&self) -> SignalView {
        SignalView {
            rust_name: self.rust_name@,
            qml_name: self.qml_name@,
            arg_types: self.arg_types@.map_values(|t: PropType| t@),
        }
    }
}

/// The value of an optional string.
pub open spec fn opt_view(o: Option<String>) -> Option<Seq<char>> {
    match o {
        Some(s) => Some(s@),
        None => None,
    }
}

/// The value of an optional type.
pub open spec fn opt_type_view(o: Option<PropType>) -> Option<TypeView> {
    match o {
        Some(t) => Some(t@),
        None => None,
    }
}

/// The mathematical value of a [`QPropertyInfo`].
pub struct PropertyView {
    pub name: Seq<char>,
    pub id: u32,
    pub read_method: Option<Seq<char>>,
    pub write_method: Option<Seq<char>>,
    pub notify_signal: Option<Seq<char>>,
    pub member: Option<Seq<char>>,
    pub constant: bool,
    pub default: bool,
    pub getter_type: Option<TypeView>,
    pub setter_type: Option<TypeView>,
    pub member_type: Option<TypeView>,
}

/// A `qproperty!` declaration.
pub struct QPropertyInfo {
    name: String,
    /// Id that identifies the property in the handler function.
    id: u32,
    read_method: Option<String>,
    write_method: Option<String>,
    notify_signal: Option<String>,
    member: Option<String>,
    constant: bool,
    default: bool,
    getter_type: Option<PropType>,
    setter_type: Option<PropType>,
    member_type: Option<PropType>,
}

impl View for QPropertyInfo {
    type V = PropertyView;

    closed spec fn view(&self) -> PropertyView {
        PropertyView {
            name: self.name@,
            id: self.id,
            read_method: opt_view(self.read_method),
            write_method: opt_view(self.write_method),
            notify_signal: opt_view(self.notify_signal),
            member: opt_view(self.member),
            constant: self.constant,
            default: self.default,
            getter_type: opt_type_view(self.getter_type),
            setter_type: opt_type_view(self.setter_type),
            member_type: opt_type_view(self.member_type),
        }
    }
}

/// An error of the given kind at the given site.
pub open spec fn perr(kind: ErrorKind, site: Site) -> PropertyError {
    PropertyError { kind, site }
}

/// The keyword an identifier names, if any.
pub open spec fn keyword_of(s: Seq<char>) -> Option<Keyword> {
    if s == "Read"@ {
        Some(Keyword::Read)
    } else if s == "Write"@ {
        Some(Keyword::Write)
    } else if s == "Notify"@ {
        Some(Keyword::Notify)
    } else if s == "Member"@ {
        Some(Keyword::Member)
    } else if s == "Constant"@ {
        Some(Keyword::Constant)
    } else if s == "Default"@ {
        Some(Keyword::Default)
    } else {
        None
    }
}

/// The declaration as parsed from its name, before any attribute.
pub open spec fn initial_property(name: Seq<char>) -> PropertyView {
    PropertyView {
        name,
        id: 0,
        read_method: None,
        write_method: None,
        notify_signal: None,
        member: None,
        constant: false,
        default: false,
        getter_type: None,
        setter_type: None,
        member_type: None,
    }
}

/// The value of a name-value attribute of `p`.
pub open spec fn attribute_slot(p: PropertyView, kw: Keyword) -> Option<Seq<char>> {
    match kw {
        Keyword::Read => p.read_method,
        Keyword::Write => p.write_method,
        Keyword::Notify => p.notify_signal,
        _ => p.member,
    }
}

/// `p` with the name-value attribute `kw` set to `v`.
pub open spec fn with_attribute(p: PropertyView, kw: Keyword, v: Seq<char>) -> PropertyView {
    match kw {
        Keyword::Read => PropertyView { read_method: Some(v), ..p },
        Keyword::Write => PropertyView { write_method: Some(v), ..p },
        Keyword::Notify => PropertyView { notify_signal: Some(v), ..p },
        _ => PropertyView { member: Some(v), ..p },
    }
}

/// The attributes from token `i` on, added to `acc`.
pub open spec fn spec_parse_attrs(toks: Seq<TokenView>, i: int, acc: PropertyView) -> Result<
    PropertyView,
    PropertyError,
>
    decreases toks.len() - i,
{
    if i < 0 || i >= toks.len() {
        Ok(acc)
    } else if toks[i] != TokenView::Punct(',') {
        Err(perr(ErrorKind::ExpectedComma, Site::Token(i as usize)))
    } else if i + 1 >= toks.len() {
        Ok(acc)
    } else {
        match toks[i + 1] {
            TokenView::Ident(s) => match keyword_of(s) {
                Some(Keyword::Constant) => spec_parse_attrs(
                    toks,
                    i + 2,
                    PropertyView { constant: true, ..acc },
                ),
                Some(Keyword::Default) => spec_parse_attrs(
                    toks,
                    i + 2,
                    PropertyView { default: true, ..acc },
                ),
                Some(kw) => if attribute_slot(acc, kw) is Some {
                    Err(perr(ErrorKind::DuplicateAttribute(kw), Site::Token((i + 1) as usize)))
                } else if i + 3 < toks.len() && toks[i + 2] == TokenView::Punct('=')
                    && toks[i + 3] is Ident {
                    spec_parse_attrs(toks, i + 4, with_attribute(acc, kw, toks[i + 3]->Ident_0))
                } else {
                    Err(perr(ErrorKind::MalformedAttribute(kw), Site::Token((i + 1) as usize)))
                },
                None => Err(perr(ErrorKind::UnsupportedAttribute, Site::Token((i + 1) as usize))),
            },
            _ => Err(perr(ErrorKind::ExpectedIdentifier, Site::Token((i + 1) as usize))),
        }
    }
}

/// The declaration that a `qproperty!` body describes.
pub open spec fn spec_parse(toks: Seq<TokenView>) -> Result<PropertyView, PropertyError> {
    if toks.len() > 0 && toks[0] is Str {
        spec_parse_attrs(toks, 1, initial_property(toks[0]->Str_0))
    } else {
        Err(perr(ErrorKind::MissingName, Site::Token(0)))
    }
}

/// The values of a token sequence.
pub open spec fn tokens_view(toks: Seq<Token>) -> Seq<TokenView> {
    toks.map_values(|t: Token| t@)
}

/// The keyword an identifier names, if any.
pub fn classify(s: &String) -> (k: Option<Keyword>)
    ensures
        k == keyword_of(s@),
{
    if *s == "Read".to_owned() {
        Some(Keyword::Read)
    } else if *s == "Write".to_owned() {
        Some(Keyword::Write)
    } else if *s == "Notify".to_owned() {
        Some(Keyword::Notify)
    } else if *s == "Member".to_owned() {
        Some(Keyword::Member)
    } else if *s == "Constant".to_owned() {
        Some(Keyword::Constant)
    } else if *s == "Default".to_owned() {
        Some(Keyword::Default)
    } else {
        None
    }
}

/// Reads the value of a name-value attribute into `dst`; an attribute is
/// given once.
fn read_attribute(tokens: &[Token], i: usize, dst: &mut Option<String>, kw: Keyword) -> (r: Result<
    (),
    PropertyError,
>)
    requires
        i + 1 < tokens@.len(),
        tokens@.len() < usize::MAX,
    ensures
        old(dst).is_some() ==> r == Err::<(), PropertyError>(
            perr(ErrorKind::DuplicateAttribute(kw), Site::Token((i + 1) as usize)),
        ) && *final(dst) == *old(dst),
        old(dst).is_none() ==> {
            let t = tokens_view(tokens@);
            if i + 3 < t.len() && t[i + 2] == TokenView::Punct('=') && t[i + 3] is Ident {
                r is Ok && opt_view(*final(dst)) == Some(t[i + 3]->Ident_0)
            } else {
                r == Err::<(), PropertyError>(
                    perr(ErrorKind::MalformedAttribute(kw), Site::Token((i + 1) as usize)),
                ) && *final(dst) == *old(dst)
            }
        },
{
    if dst.is_some() {
        return Err(PropertyError { kind: ErrorKind::DuplicateAttribute(kw), site: Site::Token(i + 1) });
    }
    let malformed = PropertyError { kind: ErrorKind::MalformedAttribute(kw), site: Site::Token(i + 1) };
    if i + 3 >= tokens.len() {
        return Err(malformed);
    }
    match &tokens[i + 2] {
        Token::Punct(c) => {
            if *c != '=' {
                return Err(malformed);
            }
        },
        _ => {
            return Err(malformed);
        },
    }
    match &tokens[i + 3] {
        Token::Ident(v) => {
            *dst = Some(v.clone());
            Ok(())
        },
        _ => Err(malformed),
    }
}

impl QPropertyInfo {
    /// Parses a `qproperty!` body.
    pub fn parse(tokens: &[Token]) -> (r: Result<QPropertyInfo, PropertyError>)
        requires
            tokens@.len() < usize::MAX,
        ensures
            match r {
                Ok(p) => spec_parse(tokens_view(tokens@)) == Ok::<PropertyView, PropertyError>(p@),
                Err(e) => spec_parse(tokens_view(tokens@)) == Err::<PropertyView, PropertyError>(e),
            },
    {
        let ghost t = tokens_view(tokens@);
        if tokens.len() == 0 {
            return Err(PropertyError { kind: ErrorKind::MissingName, site: Site::Token(0) });
        }
        let name = match &tokens[0] {
            Token::Str(s) => s.clone(),
            _ => {
                return Err(PropertyError { kind: ErrorKind::MissingName, site: Site::Token(0) });
            },
        };
        let mut prop = QPropertyInfo {
            name,
            id: 0,
            read_method: None,
            write_method: None,
            notify_signal: None,
            member: None,
            constant: false,
            default: false,
            getter_type: None,
            setter_type: None,
            member_type: None,
        };
        let mut i: usize = 1;
        while i < tokens.len()
            invariant
                t == tokens_view(tokens@),
                tokens@.len() < usize::MAX,
                1 <= i <= tokens@.len() + 1,
                spec_parse(t) == spec_parse_attrs(t, i as int, prop@),
            ensures
                spec_parse(t) == Ok::<PropertyView, PropertyError>(prop@),
            decreases tokens@.len() - i,
        {
            match &tokens[i] {
                Token::Punct(c) => {
                    if *c != ',' {
                        return Err(PropertyError { kind: ErrorKind::ExpectedComma, site: Site::Token(i) });
                    }
                },
                _ => {
                    return Err(PropertyError { kind: ErrorKind::ExpectedComma, site: Site::Token(i) });
                },
            }
            if i + 1 >= tokens.len() {
                break;
            }
            let ghost before = prop@;
            match &tokens[i + 1] {
                Token::Ident(s) => {
                    match classify(s) {
                        Some(Keyword::Constant) => {
                            prop.constant = true;
                            assert(prop@ == PropertyView { constant: true, ..before });
                            i = i + 2;
                        },
                        Some(Keyword::Default) => {
                            prop.default = true;
                            assert(prop@ == PropertyView { default: true, ..before });
                            i = i + 2;
                        },
                        Some(Keyword::Read) => {
                            read_attribute(tokens, i, &mut prop.read_method, Keyword::Read)?;
                            assert(prop@ == with_attribute(before, Keyword::Read, t[i + 3]->Ident_0));
                            i = i + 4;
                        },
                        Some(Keyword::Write) => {
                            read_attribute(tokens, i, &mut prop.write_method, Keyword::Write)?;
                            assert(prop@ == with_attribute(before, Keyword::Write, t[i + 3]->Ident_0));
                            i = i + 4;
                        },
                        Some(Keyword::Notify) => {
                            read_attribute(tokens, i, &mut prop.notify_signal, Keyword::Notify)?;
                            assert(prop@ == with_attribute(before, Keyword::Notify, t[i + 3]->Ident_0));
                            i = i + 4;
                        },
                        Some(Keyword::Member) => {
                            read_attribute(tokens, i, &mut prop.member, Keyword::Member)?;
                            assert(prop@ == with_attribute(before, Keyword::Member, t[i + 3]->Ident_0));
                            i = i + 4;
                        },
                        None => {
                            return Err(
                                PropertyError { kind: ErrorKind::UnsupportedAttribute, site: Site::Token(i + 1) },
                            );
                        },
                    }
                },
                _ => {
                    return Err(PropertyError { kind: ErrorKind::ExpectedIdentifier, site: Site::Token(i + 1) });
                },
            }
        }
        Ok(prop)
    }
}

/// The type with its outermost reference, if any, removed.
pub open spec fn strip_outer_ref(t: TypeView) -> TypeView {
    if t.refs.len() > 0 {
        TypeView { base: t.base, refs: t.refs.drop_first() }
    } else {
        t
    }
}

/// How a value of type `t` is passed.
pub open spec fn spec_type_pass(t: TypeView) -> ValuePass {
    if t.refs.len() == 0 {
        ValuePass::ByValue
    } else if t.refs[0] {
        ValuePass::ByMutReference
    } else {
        ValuePass::ByConstReference
    }
}

/// The property's type as deduced from its getter, else its setter, else
/// its member.
pub open spec fn spec_deduced_type(p: PropertyView) -> Option<TypeView> {
    if p.getter_type is Some {
        p.getter_type
    } else if p.setter_type is Some {
        p.setter_type
    } else {
        p.member_type
    }
}

/// Whether `c` has the Unicode `Lowercase` property, as `char::is_lowercase`
/// decides it.
pub uninterp spec fn is_lowercase_char(c: char) -> bool;

/// Whether `c` may stand in a property name: an ASCII letter or digit, or `_`.
pub open spec fn is_name_char(c: char) -> bool {
    ('a' <= c && c <= 'z') || ('A' <= c && c <= 'Z') || ('0' <= c && c <= '9') || c == '_'
}

/// The first character of `name` from index `i` on that may not stand in a
/// property name.
pub open spec fn first_illegal_from(name: Seq<char>, i: int) -> Option<char>
    decreases name.len() - i,
{
    if i < 0 || i >= name.len() {
        None
    } else if !is_name_char(name[i]) {
        Some(name[i])
    } else {
        first_illegal_from(name, i + 1)
    }
}

/// Whether `c` may begin a property name: among the characters that may
/// stand in a name, exactly the ASCII lower case letters; any other
/// character as `char::is_lowercase` decides it.
pub open spec fn begins_lowercase(c: char) -> bool {
    if is_name_char(c) {
        'a' <= c && c <= 'z'
    } else {
        is_lowercase_char(c)
    }
}

/// What is wrong with a property name, if anything: a name is non-empty,
/// begins with a lower case letter and holds only ASCII letters, digits and
/// `_`.
pub open spec fn spec_name_error(name: Seq<char>) -> Option<ErrorKind> {
    if name.len() == 0 {
        Some(ErrorKind::EmptyName)
    } else if !begins_lowercase(name[0]) {
        Some(ErrorKind::NameNotLowercase(name[0]))
    } else {
        match first_illegal_from(name, 0) {
            Some(c) => Some(ErrorKind::IllegalNameChar(c)),
            None => None,
        }
    }
}

/// The index of the first signal from index `i` on with the given Rust name.
pub open spec fn find_signal_from(sigs: Seq<SignalView>, name: Seq<char>, i: int) -> Option<int>
    decreases sigs.len() - i,
{
    if i < 0 || i >= sigs.len() {
        None
    } else if sigs[i].rust_name == name {
        Some(i)
    } else {
        find_signal_from(sigs, name, i + 1)
    }
}

/// The values of a slice of signals.
pub open spec fn signals_view(sigs: Seq<QSignalInfo>) -> Seq<SignalView> {
    sigs.map_values(|s: QSignalInfo| s@)
}

/// Whether a declaration is consistent with the type's signals.
pub open spec fn spec_validate(p: PropertyView, sigs: Seq<SignalView>) -> Result<(), PropertyError> {
    match spec_name_error(p.name) {
        Some(k) => Err(perr(k, Site::Name)),
        None => if p.member is Some && p.read_method is Some && p.write_method is Some {
            Err(perr(ErrorKind::MemberWithReadAndWrite, Site::Member))
        } else if p.constant && p.write_method is Some {
            Err(perr(ErrorKind::ConstantWithWrite, Site::Write))
        } else if p.constant && p.notify_signal is Some {
            Err(perr(ErrorKind::ConstantWithNotify, Site::Notify))
        } else {
            match p.notify_signal {
                None => Ok(()),
                Some(n) => match find_signal_from(sigs, n, 0) {
                    None => Err(perr(ErrorKind::SignalNotFound, Site::Notify)),
                    Some(j) => if sigs[j].arg_types.len() == 0 {
                        Ok(())
                    } else if sigs[j].arg_types.len() == 1 {
                        match spec_deduced_type(p) {
                            None => Ok(()),
                            Some(t) => if strip_outer_ref(t) == strip_outer_ref(sigs[j].arg_types[0]) {
                                Ok(())
                            } else {
                                Err(perr(ErrorKind::TypeMismatch(j as usize), Site::Notify))
                            },
                        }
                    } else {
                        Err(perr(ErrorKind::BadNotifyArity, Site::Notify))
                    },
                },
            }
        }
    }
}

/// Why setting a property's type failed.
#[derive(Debug)]
pub enum SetTypeError<E> {
    /// Deducing the type from an accessor failed.
    Deduction(E),
    /// The deduced types disagree.
    Property(PropertyError),
}

/// The value of an optional deduction.
pub open spec fn deduction_view<E>(d: Option<Result<PropType, E>>) -> Option<Result<TypeView, E>> {
    match d {
        Some(Ok(t)) => Some(Ok(t@)),
        Some(Err(e)) => Some(Err(e)),
        None => None,
    }
}

/// The type of a successful deduction, if any.
pub open spec fn deduced_ok<E>(d: Option<Result<TypeView, E>>) -> Option<TypeView> {
    match d {
        Some(Ok(t)) => Some(t),
        _ => None,
    }
}

/// The deduced types in the order getter, setter, member.
pub open spec fn deduced_list(g: Option<TypeView>, s: Option<TypeView>, m: Option<TypeView>) -> Seq<
    (TypeView, Accessor),
> {
    (if g is Some {
        seq![(g->0, Accessor::Getter)]
    } else {
        Seq::empty()
    }) + (if s is Some {
        seq![(s->0, Accessor::Setter)]
    } else {
        Seq::empty()
    }) + (if m is Some {
        seq![(m->0, Accessor::Member)]
    } else {
        Seq::empty()
    })
}

/// Where an error about the type deduced from an accessor points.
pub open spec fn accessor_site(a: Accessor) -> Site {
    match a {
        Accessor::Getter => Site::Read,
        Accessor::Setter => Site::Write,
        Accessor::Member => Site::Member,
    }
}

/// The declaration with its type set from the deductions of its getter,
/// setter and member; a deduction counts only where the declaration names
/// that accessor. The types deduced first and second must agree up to
/// references.
pub open spec fn spec_set_type<E>(
    p: PropertyView,
    getter: Option<Result<TypeView, E>>,
    setter: Option<Result<TypeView, E>>,
    member: Option<Result<TypeView, E>>,
) -> Result<PropertyView, SetTypeError<E>> {
    let g = if p.read_method is Some { getter } else { None };
    let s = if p.write_method is Some { setter } else { None };
    let m = if p.member is Some { member } else { None };
    if let Some(Err(e)) = g {
        Err(SetTypeError::Deduction(e))
    } else if let Some(Err(e)) = s {
        Err(SetTypeError::Deduction(e))
    } else if let Some(Err(e)) = m {
        Err(SetTypeError::Deduction(e))
    } else {
        let d = deduced_list(deduced_ok(g), deduced_ok(s), deduced_ok(m));
        if d.len() == 0 {
            Ok(p)
        } else if d.len() >= 2 && d[0].0.base != d[1].0.base {
            Err(
                SetTypeError::Property(
                    perr(ErrorKind::InconsistentTypes(d[0].1, d[1].1), accessor_site(d[1].1)),
                ),
            )
        } else {
            Ok(
                PropertyView {
                    getter_type: deduced_ok(g),
                    setter_type: deduced_ok(s),
                    member_type: deduced_ok(m),
                    ..p
                },
            )
        }
    }
}

/// Whether `c` may stand in a property name.
pub fn is_name_char_exec(c: char) -> (b: bool)
    ensures
        b == is_name_char(c),
{
    ('a' <= c && c <= 'z') || ('A' <= c && c <= 'Z') || ('0' <= c && c <= '9') || c == '_'
}

/// `char::is_lowercase`: whether `c` has the Unicode `Lowercase` property.
/// The contract names that property and states what it is on ASCII letters,
/// digits and `_`: the letters `a` to `z` have it, the letters `A` to `Z`,
/// the digits and `_` do not. What it is on other characters is left unsaid.
#[verifier::external_body]
fn char_is_lowercase(c: char) -> (b: bool)
    ensures
        b == is_lowercase_char(c),
        'a' <= c <= 'z' ==> b,
        'A' <= c <= 'Z' ==> !b,
        '0' <= c <= '9' ==> !b,
        c == '_' ==> !b,
{
    c.is_lowercase()
}

/// A copy of a type.
pub fn copy_type(t: &PropType) -> (r: PropType)
    ensures
        r@ == t@,
{
    let mut refs: Vec<bool> = Vec::new();
    for i in 0..t.refs.len()
        invariant
            refs@ == t.refs@.take(i as int),
    {
        refs.push(t.refs[i]);
        assert(refs@ == t.refs@.take(i + 1));
    }
    assert(t.refs@.take(t.refs@.len() as int) == t.refs@);
    PropType { base: t.base.clone(), refs }
}

/// Whether two types are the same once their outermost references, if any,
/// are removed.
pub fn same_without_outer_ref(a: &PropType, b: &PropType) -> (r: bool)
    ensures
        r == (strip_outer_ref(a@) == strip_outer_ref(b@)),
{
    if a.base != b.base {
        return false;
    }
    let sa: usize = if a.refs.len() > 0 { 1 } else { 0 };
    let sb: usize = if b.refs.len() > 0 { 1 } else { 0 };
    if a.refs.len() - sa != b.refs.len() - sb {
        assert(strip_outer_ref(a@).refs.len() != strip_outer_ref(b@).refs.len());
        return false;
    }
    let n = a.refs.len() - sa;
    for i in 0..n
        invariant
            n == a.refs@.len() - sa,
            n == b.refs@.len() - sb,
            sa == (if a.refs@.len() > 0 { 1int } else { 0 }),
            sb == (if b.refs@.len() > 0 { 1int } else { 0 }),
            forall|j: int| 0 <= j < i ==> #[trigger] strip_outer_ref(a@).refs[j] == strip_outer_ref(b@).refs[j],
    {
        assert(strip_outer_ref(a@).refs[i as int] == a.refs@[i + sa]);
        assert(strip_outer_ref(b@).refs[i as int] == b.refs@[i + sb]);
        if a.refs[i + sa] != b.refs[i + sb] {
            return false;
        }
    }
    assert(strip_outer_ref(a@).refs =~= strip_outer_ref(b@).refs);
    true
}

/// How a value of type `t` is passed.
pub fn get_type_pass(t: &PropType) -> (p: ValuePass)
    ensures
        p == spec_type_pass(t@),
{
    if t.refs.len() == 0 {
        ValuePass::ByValue
    } else if t.refs[0] {
        ValuePass::ByMutReference
    } else {
        ValuePass::ByConstReference
    }
}

/// The type with its outermost reference, if any, removed.
pub fn remove_ref(t: &PropType) -> (r: PropType)
    ensures
        r@ == strip_outer_ref(t@),
{
    let c = copy_type(t);
    if c.refs.len() == 0 {
        return c;
    }
    let mut refs: Vec<bool> = Vec::new();
    for i in 1..c.refs.len()
        invariant
            1 <= i <= c.refs@.len(),
            refs@ == c.refs@.subrange(1, i as int),
    {
        refs.push(c.refs[i]);
        assert(refs@ == c.refs@.subrange(1, i + 1));
    }
    assert(c.refs@.drop_first() == c.refs@.subrange(1, c.refs@.len() as int));
    PropType { base: c.base, refs }
}

fn copy_opt_type(t: &Option<PropType>) -> (r: Option<PropType>)
    ensures
        opt_type_view(r) == opt_type_view(*t),
{
    match t {
        Some(x) => Some(copy_type(x)),
        None => None,
    }
}

/// The index of the first signal with the given Rust name.
pub fn find_signal(signals: &[QSignalInfo], name: &String) -> (r: Option<usize>)
    ensures
        r matches Some(j) ==> j < signals@.len(),
        match r {
            Some(j) => find_signal_from(signals_view(signals@), name@, 0) == Some(j as int),
            None => find_signal_from(signals_view(signals@), name@, 0) is None,
        },
{
    let ghost sv = signals_view(signals@);
    for i in 0..signals.len()
        invariant
            sv == signals_view(signals@),
            find_signal_from(sv, name@, 0) == find_signal_from(sv, name@, i as int),
    {
        if signals[i].rust_name == *name {
            return Some(i);
        }
    }
    None
}

impl QPropertyInfo {
    /// Reads a `qproperty!` macro of an impl block: `None` when the macro is
    /// not `qproperty!`; attributes on the macro are refused; otherwise the
    /// parsed body with the given id.
    pub fn new(is_qproperty: bool, has_attributes: bool, body: &[Token], id: u32) -> (r: Result<
        Option<Self>,
        PropertyError,
    >)
        requires
            body@.len() < usize::MAX,
        ensures
            !is_qproperty ==> r matches Ok(None),
            is_qproperty && has_attributes ==> r == Err::<Option<Self>, PropertyError>(
                perr(ErrorKind::AttributesNotSupported, Site::Attribute),
            ),
            is_qproperty && !has_attributes ==> match spec_parse(tokens_view(body@)) {
                Ok(p) => r matches Ok(Some(q)) && q@ == PropertyView { id, ..p },
                Err(e) => r == Err::<Option<Self>, PropertyError>(e),
            },
    {
        if !is_qproperty {
            return Ok(None);
        }
        if has_attributes {
            return Err(PropertyError { kind: ErrorKind::AttributesNotSupported, site: Site::Attribute });
        }
        let mut prop = QPropertyInfo::parse(body)?;
        prop.id = id;
        Ok(Some(prop))
    }

    /// The property's name in QML.
    pub fn get_qml_name(&self) -> (n: &String)
        ensures
            n@ == self@.name,
    {
        &self.name
    }

    /// The id that identifies the property in the handler function.
    pub fn id(&self) -> (i: u32)
        ensures
            i == self@.id,
    {
        self.id
    }

    /// Whether the property is constant.
    pub fn is_const(&self) -> (b: bool)
        ensures
            b == self@.constant,
    {
        self.constant
    }

    /// The notify signal's Rust name, if any.
    pub fn get_notify_signal(&self) -> (s: Option<&String>)
        ensures
            match s {
                Some(x) => self@.notify_signal == Some(x@),
                None => self@.notify_signal is None,
            },
    {
        self.notify_signal.as_ref()
    }

    /// The property's type as deduced from its getter, else its setter,
    /// else its member.
    pub fn get_deduced_type(&self) -> (t: Option<&PropType>)
        ensures
            match t {
                Some(x) => spec_deduced_type(self@) == Some(x@),
                None => spec_deduced_type(self@) is None,
            },
    {
        if self.getter_type.is_some() {
            self.getter_type.as_ref()
        } else if self.setter_type.is_some() {
            self.setter_type.as_ref()
        } else {
            self.member_type.as_ref()
        }
    }

    /// Checks the property name.
    pub fn validate_name(&self) -> (r: Result<(), PropertyError>)
        ensures
            match spec_name_error(self@.name) {
                Some(k) => r == Err::<(), PropertyError>(perr(k, Site::Name)),
                None => r is Ok,
            },
    {
        let name = self.name.as_str();
        let len = name.unicode_len();
        if len == 0 {
            return Err(PropertyError { kind: ErrorKind::EmptyName, site: Site::Name });
        }
        let first = name.get_char(0);
        if !char_is_lowercase(first) {
            return Err(PropertyError { kind: ErrorKind::NameNotLowercase(first), site: Site::Name });
        }
        for i in 0..len
            invariant
                len == name@.len(),
                len > 0,
                name@ == self@.name,
                begins_lowercase(name@[0]),
                first_illegal_from(name@, 0) == first_illegal_from(name@, i as int),
        {
            let ch = name.get_char(i);
            if !is_name_char_exec(ch) {
                return Err(PropertyError { kind: ErrorKind::IllegalNameChar(ch), site: Site::Name });
            }
        }
        Ok(())
    }

    /// Checks the declaration against itself and the type's signals.
    pub fn validate(&self, signals: &[QSignalInfo]) -> (r: Result<(), PropertyError>)
        ensures
            r == spec_validate(self@, signals_view(signals@)),
    {
        self.validate_name()?;
        if self.member.is_some() && self.read_method.is_some() && self.write_method.is_some() {
            return Err(PropertyError { kind: ErrorKind::MemberWithReadAndWrite, site: Site::Member });
        }
        if self.constant {
            if self.write_method.is_some() {
                return Err(PropertyError { kind: ErrorKind::ConstantWithWrite, site: Site::Write });
            }
            if self.notify_signal.is_some() {
                return Err(PropertyError { kind: ErrorKind::ConstantWithNotify, site: Site::Notify });
            }
        }
        match &self.notify_signal {
            None => Ok(()),
            Some(n) => {
                let ghost sv = signals_view(signals@);
                match find_signal(signals, n) {
                    None => Err(PropertyError { kind: ErrorKind::SignalNotFound, site: Site::Notify }),
                    Some(j) => {
                        let signal = &signals[j];
                        assert(sv[j as int] == signal@);
                        let count = signal.arg_types.len();
                        assert(signal@.arg_types.len() == count);
                        if count == 0 {
                            Ok(())
                        } else if count == 1 {
                            match self.get_deduced_type() {
                                None => Ok(()),
                                Some(t) => {
                                    assert(signal@.arg_types[0] == signal.arg_types@[0]@);
                                    if same_without_outer_ref(t, &signal.arg_types[0]) {
                                        Ok(())
                                    } else {
                                        Err(PropertyError { kind: ErrorKind::TypeMismatch(j), site: Site::Notify })
                                    }
                                },
                            }
                        } else {
                            Err(PropertyError { kind: ErrorKind::BadNotifyArity, site: Site::Notify })
                        }
                    },
                }
            },
        }
    }

    /// Refuses a type with more than one `Default` property: the error names
    /// the first two.
    pub fn check_single_default_property(properties: &[Self]) -> (r: Result<(), PropertyError>)
        ensures
            r is Ok <==> forall|i: int, j: int|
                0 <= i < j < properties@.len() ==> !(properties@[i]@.default && properties@[j]@.default),
            r matches Err(e) ==> e.site == Site::Default && exists|f: int, s: int|
                0 <= f < s < properties@.len() && e.kind == ErrorKind::MultipleDefault(f as usize, s as usize)
                    && properties@[f]@.default && properties@[s]@.default
                    && forall|k: int| 0 <= k < s && k != f ==> !(#[trigger] properties@[k]@.default),
    {
        let mut first_default: Option<usize> = None;
        for i in 0..properties.len()
            invariant
                first_default matches Some(f) ==> f < i && properties@[f as int]@.default && forall|k: int|
                    0 <= k < i && k != f ==> !(#[trigger] properties@[k]@.default),
                first_default is None ==> forall|k: int| 0 <= k < i ==> !(#[trigger] properties@[k]@.default),
        {
            if properties[i].default {
                match first_default {
                    Some(f) => {
                        return Err(
                            PropertyError { kind: ErrorKind::MultipleDefault(f, i), site: Site::Default },
                        );
                    },
                    None => {
                        first_default = Some(i);
                    },
                }
            }
        }
        Ok(())
    }

    /// Sets the property's type from the types deduced from its getter,
    /// setter and member; a deduction counts only where the declaration
    /// names that accessor.
    pub fn set_type<E>(
        &mut self,
        getter: Option<Result<PropType, E>>,
        setter: Option<Result<PropType, E>>,
        member: Option<Result<PropType, E>>,
    ) -> (r: Result<(), SetTypeError<E>>)
        ensures
            match spec_set_type(
                old(self)@,
                deduction_view(getter),
                deduction_view(setter),
                deduction_view(member),
            ) {
                Ok(p) => r is Ok && final(self)@ == p,
                Err(e) => r == Err::<(), SetTypeError<E>>(e) && final(self)@ == old(self)@,
            },
    {
        let g = if self.read_method.is_some() { getter } else { None };
        let s = if self.write_method.is_some() { setter } else { None };
        let m = if self.member.is_some() { member } else { None };
        let g = match g {
            Some(Err(e)) => { return Err(SetTypeError::Deduction(e)); },
            Some(Ok(t)) => Some(t),
            None => None,
        };
        let s = match s {
            Some(Err(e)) => { return Err(SetTypeError::Deduction(e)); },
            Some(Ok(t)) => Some(t),
            None => None,
        };
        let m = match m {
            Some(Err(e)) => { return Err(SetTypeError::Deduction(e)); },
            Some(Ok(t)) => Some(t),
            None => None,
        };
        let ghost d = deduced_list(opt_type_view(g), opt_type_view(s), opt_type_view(m));
        let mut first: Option<(&PropType, Accessor)> = None;
        let mut second: Option<(&PropType, Accessor)> = None;
        match &g {
            Some(t) => { first = Some((t, Accessor::Getter)); },
            None => {},
        }
        match &s {
            Some(t) => {
                if first.is_none() { first = Some((t, Accessor::Setter)); } else { second = Some((t, Accessor::Setter)); }
            },
            None => {},
        }
        match &m {
            Some(t) => {
                if first.is_none() {
                    first = Some((t, Accessor::Member));
                } else if second.is_none() {
                    second = Some((t, Accessor::Member));
                }
            },
            None => {},
        }
        assert(d.len() >= 1 ==> (first matches Some(f) && d[0] == (f.0@, f.1)));
        assert(d.len() >= 2 ==> (second matches Some(x) && d[1] == (x.0@, x.1)));
        assert(d.len() == 0 <==> first is None);
        assert(d.len() <= 1 <==> second is None);
        match first {
            None => { return Ok(()); },
            Some(_) => {},
        }
        match (first, second) {
            (Some((a, _)), Some((b, second_src))) => {
                if a.base != b.base {
                    let first_src = first.unwrap().1;
                    let site = match second_src {
                        Accessor::Getter => Site::Read,
                        Accessor::Setter => Site::Write,
                        Accessor::Member => Site::Member,
                    };
                    return Err(SetTypeError::Property(
                        PropertyError { kind: ErrorKind::InconsistentTypes(first_src, second_src), site },
                    ));
                }
            },
            _ => {},
        }
        self.getter_type = g;
        self.setter_type = s;
        self.member_type = m;
        Ok(())
    }
}

/// Where the registered metatype of a property comes from.
#[derive(Debug)]
pub enum MetatypeSource {
    /// The deduced type, with its outermost reference removed.
    Deduced(PropType),
    /// The type of the named member, found from the member access.
    MemberFallback(String),
}

/// The mathematical value of a [`MetatypeSource`].
pub enum MetatypeView {
    Deduced(TypeView),
    MemberFallback(Seq<char>),
}

impl View for MetatypeSource {
    type V = MetatypeView;

    open spec fn view(&self) -> MetatypeView {
        match self {
            MetatypeSource::Deduced(t) => MetatypeView::Deduced(t@),
            MetatypeSource::MemberFallback(m) => MetatypeView::MemberFallback(m@),
        }
    }
}

/// The registration of a property in the meta-object.
#[derive(Debug)]
pub struct MetaRegistration {
    pub name: String,
    pub id: u32,
    pub metatype: MetatypeSource,
    pub is_const: bool,
    /// The QML name of the notify signal; empty without one.
    pub signal_name: String,
    /// The property is the object's default property.
    pub default_property: bool,
}

/// The mathematical value of a [`MetaRegistration`].
pub struct MetaRegistrationView {
    pub name: Seq<char>,
    pub id: u32,
    pub metatype: MetatypeView,
    pub is_const: bool,
    pub signal_name: Seq<char>,
    pub default_property: bool,
}

impl View for MetaRegistration {
    type V = MetaRegistrationView;

    open spec fn view(&self) -> MetaRegistrationView {
        MetaRegistrationView {
            name: self.name@,
            id: self.id,
            metatype: self.metatype@,
            is_const: self.is_const,
            signal_name: self.signal_name@,
            default_property: self.default_property,
        }
    }
}

/// The registration of property `p` with the given notify signal.
pub open spec fn spec_meta_registration(p: PropertyView, signal: Option<SignalView>) -> Result<
    MetaRegistrationView,
    PropertyError,
> {
    let signal_name = match signal {
        Some(s) => s.qml_name,
        None => Seq::<char>::empty(),
    };
    match spec_deduced_type(p) {
        None if p.member is None => Err(perr(ErrorKind::UndeducibleType, Site::Whole)),
        _ => if (signal_name.len() == 0) != (p.notify_signal is None) {
            Err(perr(ErrorKind::SignalNameMismatch, Site::Whole))
        } else {
            Ok(
                MetaRegistrationView {
                    name: p.name,
                    id: p.id,
                    metatype: match spec_deduced_type(p) {
                        Some(t) => MetatypeView::Deduced(strip_outer_ref(t)),
                        None => MetatypeView::MemberFallback(p.member->0),
                    },
                    is_const: p.constant,
                    signal_name,
                    default_property: p.default,
                },
            )
        },
    }
}

/// Where a read of the property takes its value from.
#[derive(Debug)]
pub enum ValueSource {
    /// The getter's result; `take_ref` when the getter returns a value that
    /// must be referenced.
    Getter { method: String, take_ref: bool },
    /// The member field.
    Member(String),
}

/// The mathematical value of a [`ValueSource`].
pub enum ValueSourceView {
    Getter { method: Seq<char>, take_ref: bool },
    Member(Seq<char>),
}

impl View for ValueSource {
    type V = ValueSourceView;

    open spec fn view(&self) -> ValueSourceView {
        match self {
            ValueSource::Getter { method, take_ref } => ValueSourceView::Getter {
                method: method@,
                take_ref: *take_ref,
            },
            ValueSource::Member(m) => ValueSourceView::Member(m@),
        }
    }
}

/// Where a read of property `p` takes its value from.
pub open spec fn spec_value_source(p: PropertyView) -> Result<ValueSourceView, PropertyError> {
    match p.read_method {
        Some(g) => match p.getter_type {
            Some(t) => Ok(ValueSourceView::Getter { method: g, take_ref: t.refs.len() == 0 }),
            None => Err(perr(ErrorKind::GetterTypeMissing, Site::Read)),
        },
        None => match p.member {
            Some(m) => Ok(ValueSourceView::Member(m)),
            None => Err(perr(ErrorKind::NoReadOrMember, Site::Whole)),
        },
    }
}

/// How a write of the property stores the value.
#[derive(Debug)]
pub enum WriteCode {
    /// Through the setter, passing the value as the setter takes it.
    Setter { name: String, setter: String, pass: ValuePass },
    /// Into the member when it changes, then emitting the notify signal (by
    /// its Rust name, with how its argument is passed, if it has one).
    Member { name: String, member: String, notify: Option<(String, Option<ValuePass>)> },
}

/// The mathematical value of a [`WriteCode`].
pub enum WriteCodeView {
    Setter { name: Seq<char>, setter: Seq<char>, pass: ValuePass },
    Member { name: Seq<char>, member: Seq<char>, notify: Option<(Seq<char>, Option<ValuePass>)> },
}

impl View for WriteCode {
    type V = WriteCodeView;

    open spec fn view(&self) -> WriteCodeView {
        match self {
            WriteCode::Setter { name, setter, pass } => WriteCodeView::Setter {
                name: name@,
                setter: setter@,
                pass: *pass,
            },
            WriteCode::Member { name, member, notify } => WriteCodeView::Member {
                name: name@,
                member: member@,
                notify: match notify {
                    Some((s, p)) => Some((s@, *p)),
                    None => None,
                },
            },
        }
    }
}

/// How a write of property `p` stores the value, given the notify signal;
/// `None` for a property that is not written (constant, or with neither a
/// setter nor a member).
pub open spec fn spec_write_code(p: PropertyView, signal: Option<SignalView>) -> Result<
    Option<WriteCodeView>,
    PropertyError,
> {
    if p.constant {
        Ok(None)
    } else if p.write_method is Some {
        match p.setter_type {
            Some(t) => Ok(
                Some(
                    WriteCodeView::Setter {
                        name: p.name,
                        setter: p.write_method->0,
                        pass: spec_type_pass(t),
                    },
                ),
            ),
            None => Err(perr(ErrorKind::SetterTypeMissing, Site::Write)),
        }
    } else {
        match p.member {
            None => Ok(None),
            Some(m) => match p.notify_signal {
                None => Ok(Some(WriteCodeView::Member { name: p.name, member: m, notify: None })),
                Some(n) => match signal {
                    None => Err(perr(ErrorKind::SignalInfoMissing, Site::Notify)),
                    Some(sig) => if sig.rust_name != n {
                        Err(perr(ErrorKind::InconsistentSignalName, Site::Whole))
                    } else {
                        Ok(
                            Some(
                                WriteCodeView::Member {
                                    name: p.name,
                                    member: m,
                                    notify: Some(
                                        (
                                            sig.rust_name,
                                            if sig.arg_types.len() > 0 {
                                                Some(spec_type_pass(sig.arg_types[0]))
                                            } else {
                                                None
                                            },
                                        ),
                                    ),
                                },
                            ),
                        )
                    },
                },
            },
        }
    }
}

/// The value of an optional signal.
pub open spec fn opt_signal_view(s: Option<&QSignalInfo>) -> Option<SignalView> {
    match s {
        Some(x) => Some(x@),
        None => None,
    }
}

impl QPropertyInfo {
    /// The registration of the property in the meta-object, with the given
    /// notify signal.
    pub fn get_meta_registration_code(&self, signal: Option<&QSignalInfo>) -> (r: Result<
        MetaRegistration,
        PropertyError,
    >)
        ensures
            match r {
                Ok(m) => spec_meta_registration(self@, opt_signal_view(signal)) == Ok::<
                    MetaRegistrationView,
                    PropertyError,
                >(m@),
                Err(e) => spec_meta_registration(self@, opt_signal_view(signal)) == Err::<
                    MetaRegistrationView,
                    PropertyError,
                >(e),
            },
    {
        let metatype = match self.get_deduced_type() {
            Some(t) => MetatypeSource::Deduced(remove_ref(t)),
            None => match &self.member {
                Some(m) => MetatypeSource::MemberFallback(m.clone()),
                None => {
                    return Err(PropertyError { kind: ErrorKind::UndeducibleType, site: Site::Whole });
                },
            },
        };
        let signal_name = match signal {
            Some(s) => s.qml_name.clone(),
            None => String::new(),
        };
        if (signal_name.as_str().unicode_len() == 0) != self.notify_signal.is_none() {
            return Err(PropertyError { kind: ErrorKind::SignalNameMismatch, site: Site::Whole });
        }
        Ok(
            MetaRegistration {
                name: self.name.clone(),
                id: self.id,
                metatype,
                is_const: self.constant,
                signal_name,
                default_property: self.default,
            },
        )
    }

    /// Where a read of the property takes its value from.
    pub fn get_value_src_ref(&self) -> (r: Result<ValueSource, PropertyError>)
        ensures
            match r {
                Ok(v) => spec_value_source(self@) == Ok::<ValueSourceView, PropertyError>(v@),
                Err(e) => spec_value_source(self@) == Err::<ValueSourceView, PropertyError>(e),
            },
    {
        match &self.read_method {
            Some(getter) => match &self.getter_type {
                Some(t) => Ok(ValueSource::Getter { method: getter.clone(), take_ref: t.refs.len() == 0 }),
                None => Err(PropertyError { kind: ErrorKind::GetterTypeMissing, site: Site::Read }),
            },
            None => match &self.member {
                Some(m) => Ok(ValueSource::Member(m.clone())),
                None => Err(PropertyError { kind: ErrorKind::NoReadOrMember, site: Site::Whole }),
            },
        }
    }

    /// The read of the property: its value source.
    pub fn get_read_code(&self) -> (r: Result<ValueSource, PropertyError>)
        ensures
            match r {
                Ok(v) => spec_value_source(self@) == Ok::<ValueSourceView, PropertyError>(v@),
                Err(e) => spec_value_source(self@) == Err::<ValueSourceView, PropertyError>(e),
            },
    {
        self.get_value_src_ref()
    }

    /// The notifying read of the property: its value source and the Rust
    /// name of the signal that notifies of changes.
    pub fn get_read_notifying_code(&self, signal: &QSignalInfo) -> (r: Result<
        (ValueSource, String),
        PropertyError,
    >)
        ensures
            match r {
                Ok((v, n)) => spec_value_source(self@) == Ok::<ValueSourceView, PropertyError>(v@)
                    && n@ == signal@.rust_name,
                Err(e) => spec_value_source(self@) == Err::<ValueSourceView, PropertyError>(e),
            },
    {
        let source = self.get_value_src_ref()?;
        Ok((source, signal.rust_name.clone()))
    }

    /// How a write of the property stores the value, given the notify
    /// signal; `None` when the property is not written.
    pub fn get_write_code(&self, signal: Option<&QSignalInfo>) -> (r: Result<
        Option<WriteCode>,
        PropertyError,
    >)
        ensures
            match r {
                Ok(Some(w)) => spec_write_code(self@, opt_signal_view(signal)) == Ok::<
                    Option<WriteCodeView>,
                    PropertyError,
                >(Some(w@)),
                Ok(None) => spec_write_code(self@, opt_signal_view(signal)) == Ok::<
                    Option<WriteCodeView>,
                    PropertyError,
                >(None),
                Err(e) => spec_write_code(self@, opt_signal_view(signal)) == Err::<
                    Option<WriteCodeView>,
                    PropertyError,
                >(e),
            },
    {
        if self.constant {
            return Ok(None);
        }
        if let Some(setter) = &self.write_method {
            return match &self.setter_type {
                Some(t) => Ok(
                    Some(
                        WriteCode::Setter {
                            name: self.name.clone(),
                            setter: setter.clone(),
                            pass: get_type_pass(t),
                        },
                    ),
                ),
                None => Err(PropertyError { kind: ErrorKind::SetterTypeMissing, site: Site::Write }),
            };
        }
        let member = match &self.member {
            Some(m) => m,
            None => {
                return Ok(None);
            },
        };
        let notify = match &self.notify_signal {
            None => None,
            Some(n) => {
                let sig = match signal {
                    Some(s) => s,
                    None => {
                        return Err(PropertyError { kind: ErrorKind::SignalInfoMissing, site: Site::Notify });
                    },
                };
                if sig.rust_name != *n {
                    return Err(PropertyError { kind: ErrorKind::InconsistentSignalName, site: Site::Whole });
                }
                let pass = if sig.arg_types.len() > 0 {
                    assert(sig@.arg_types[0] == sig.arg_types@[0]@);
                    Some(get_type_pass(&sig.arg_types[0]))
                } else {
                    None
                };
                Some((sig.rust_name.clone(), pass))
            },
        };
        Ok(Some(WriteCode::Member { name: self.name.clone(), member: member.clone(), notify }))
    }
}

proof fn lemma_trailing_comma_attrs(t: Seq<TokenView>, i: int, acc: PropertyView)
    requires
        t.len() > 0 ==> t.last() != TokenView::Punct(','),
        0 <= i,
        spec_parse_attrs(t, i, acc) is Ok,
    ensures
        spec_parse_attrs(t.push(TokenView::Punct(',')), i, acc) == spec_parse_attrs(t, i, acc),
    decreases t.len() - i,
{
    let t2 = t.push(TokenView::Punct(','));
    if i >= t.len() {
    } else {
        assert(t2[i] == t[i]);
        if i + 1 >= t.len() {
            assert(t[i] == t.last());
        } else {
            assert(t2[i + 1] == t[i + 1]);
            if i + 3 < t.len() {
                assert(t2[i + 2] == t[i + 2]);
                assert(t2[i + 3] == t[i + 3]);
            }
            match t[i + 1] {
                TokenView::Ident(s) => match keyword_of(s) {
                    Some(Keyword::Constant) => {
                        lemma_trailing_comma_attrs(t, i + 2, PropertyView { constant: true, ..acc });
                    },
                    Some(Keyword::Default) => {
                        lemma_trailing_comma_attrs(t, i + 2, PropertyView { default: true, ..acc });
                    },
                    Some(kw) => {
                        if attribute_slot(acc, kw) is None && i + 3 < t.len() {
                            lemma_trailing_comma_attrs(t, i + 4, with_attribute(acc, kw, t[i + 3]->Ident_0));
                        }
                    },
                    None => {},
                },
                _ => {},
            }
        }
    }
}

/// A trailing comma is allowed: appending one to a body that parses and
/// does not already end in a comma gives the same declaration.
pub proof fn law_trailing_comma(t: Seq<TokenView>)
    requires
        t.len() > 0 ==> t.last() != TokenView::Punct(','),
        spec_parse(t) is Ok,
    ensures
        spec_parse(t.push(TokenView::Punct(','))) == spec_parse(t),
{
    let t2 = t.push(TokenView::Punct(','));
    assert(t2[0] == t[0]);
    lemma_trailing_comma_attrs(t, 1, initial_property(t[0]->Str_0));
}

/// A name-value attribute is given at most once: a body that repeats one is
/// refused.
pub proof fn law_attribute_given_once(t: Seq<TokenView>, i: int, acc: PropertyView, kw: Keyword)
    requires
        0 <= i,
        i + 1 < t.len(),
        t[i] == TokenView::Punct(','),
        t[i + 1] matches TokenView::Ident(s) && keyword_of(s) == Some(kw),
        kw != Keyword::Constant && kw != Keyword::Default,
        attribute_slot(acc, kw) is Some,
    ensures
        spec_parse_attrs(t, i, acc) == Err::<PropertyView, PropertyError>(
            perr(ErrorKind::DuplicateAttribute(kw), Site::Token((i + 1) as usize)),
        ),
{
}

proof fn lemma_no_illegal_char(name: Seq<char>, i: int)
    requires
        0 <= i,
        first_illegal_from(name, i) is None,
    ensures
        forall|k: int| i <= k < name.len() ==> is_name_char(#[trigger] name[k]),
    decreases name.len() - i,
{
    if i < name.len() {
        lemma_no_illegal_char(name, i + 1);
    }
}

proof fn lemma_all_name_chars(name: Seq<char>, i: int)
    requires
        0 <= i,
        forall|k: int| i <= k < name.len() ==> is_name_char(#[trigger] name[k]),
    ensures
        first_illegal_from(name, i) is None,
    decreases name.len() - i,
{
    if i < name.len() {
        lemma_all_name_chars(name, i + 1);
    }
}

/// A name made of ASCII letters, digits and `_` passes the name check
/// exactly when it is non-empty and begins with a lower case letter.
pub proof fn law_name_check(name: Seq<char>)
    requires
        forall|k: int| 0 <= k < name.len() ==> is_name_char(#[trigger] name[k]),
    ensures
        spec_name_error(name) is None <==> (name.len() > 0 && 'a' <= name[0] <= 'z'),
{
    lemma_all_name_chars(name, 0);
    if name.len() > 0 {
        assert(is_name_char(name[0]));
    }
}

/// What a valid declaration is: its name is non-empty, begins with a lower
/// case letter and holds only ASCII letters, digits and `_`; a constant
/// property has neither a setter nor a notify signal; `Member` does not
/// come with both `Read` and `Write`; and the notify signal is a signal of
/// the type with at most one typed argument, whose type then matches the
/// property's.
pub proof fn law_valid_declaration(p: PropertyView, sigs: Seq<SignalView>)
    requires
        spec_validate(p, sigs) is Ok,
    ensures
        p.name.len() > 0,
        'a' <= p.name[0] <= 'z',
        forall|k: int| 0 <= k < p.name.len() ==> is_name_char(#[trigger] p.name[k]),
        !(p.constant && p.write_method is Some),
        !(p.constant && p.notify_signal is Some),
        !(p.member is Some && p.read_method is Some && p.write_method is Some),
        p.notify_signal matches Some(n) ==> exists|j: int|
            0 <= j < sigs.len() && #[trigger] sigs[j].rust_name == n && sigs[j].arg_types.len() <= 1
                && (sigs[j].arg_types.len() == 1 && spec_deduced_type(p) is Some ==> strip_outer_ref(
                spec_deduced_type(p)->0,
            ) == strip_outer_ref(sigs[j].arg_types[0])),
{
    lemma_no_illegal_char(p.name, 0);
    if let Some(n) = p.notify_signal {
        lemma_find_signal(sigs, n, 0);
        let j = find_signal_from(sigs, n, 0)->0;
        assert(sigs[j].rust_name == n);
    }
}

proof fn lemma_find_signal(sigs: Seq<SignalView>, name: Seq<char>, i: int)
    requires
        0 <= i,
    ensures
        find_signal_from(sigs, name, i) matches Some(j) ==> i <= j < sigs.len() && sigs[j].rust_name
            == name && forall|k: int| i <= k < j ==> sigs[k].rust_name != name,
        find_signal_from(sigs, name, i) is None ==> forall|k: int|
            i <= k < sigs.len() ==> sigs[k].rust_name != name,
    decreases sigs.len() - i,
{
    if i < sigs.len() && sigs[i].rust_name != name {
        lemma_find_signal(sigs, name, i + 1);
    }
}

/// The notify signal is the first signal with the named Rust name.
pub proof fn law_notify_signal_is_first_match(sigs: Seq<SignalView>, name: Seq<char>)
    ensures
        find_signal_from(sigs, name, 0) matches Some(j) ==> 0 <= j < sigs.len() && sigs[j].rust_name
            == name && forall|k: int| 0 <= k < j ==> sigs[k].rust_name != name,
        find_signal_from(sigs, name, 0) is None ==> forall|k: int|
            0 <= k < sigs.len() ==> sigs[k].rust_name != name,
{
    lemma_find_signal(sigs, name, 0);
}

/// A constant property is never written.
pub proof fn law_constant_is_never_written(p: PropertyView, signal: Option<SignalView>)
    requires
        p.constant,
    ensures
        spec_write_code(p, signal) == Ok::<Option<WriteCodeView>, PropertyError>(None),
{
}

/// Setting the type succeeds only when the first two of the deductions that
/// count agree up to references, and the property then has exactly the
/// deduced types.
pub proof fn law_set_type_agrees<E>(
    p: PropertyView,
    getter: Option<Result<TypeView, E>>,
    setter: Option<Result<TypeView, E>>,
    member: Option<Result<TypeView, E>>,
)
    requires
        spec_set_type(p, getter, setter, member) is Ok,
    ensures
        ({
            let g = deduced_ok(if p.read_method is Some { getter } else { None });
            let s = deduced_ok(if p.write_method is Some { setter } else { None });
            let m = deduced_ok(if p.member is Some { member } else { None });
            let d = deduced_list(g, s, m);
            let q = spec_set_type(p, getter, setter, member)->Ok_0;
            &&& d.len() >= 2 ==> d[0].0.base == d[1].0.base
            &&& d.len() > 0 ==> q.getter_type == g && q.setter_type == s && q.member_type == m
        }),
{
}

/// A registered property names a notify signal exactly when it has one.
pub proof fn law_registration_signal(p: PropertyView, signal: Option<SignalView>)
    requires
        spec_meta_registration(p, signal) is Ok,
    ensures
        (spec_meta_registration(p, signal)->Ok_0.signal_name.len() == 0) <==> p.notify_signal is None,
{
}


/// A declaration is valid when it meets every rule: its name is non-empty,
/// begins with a lower case ASCII letter and holds only ASCII letters,
/// digits and `_`; `Member` does not come with both `Read` and `Write` (with
/// one of them it is fine); a constant property has neither a setter nor a
/// notify signal; and the first signal named as the notify signal exists and
/// has at most one typed argument, whose type, once a type is deduced,
/// matches the property's up to an outermost reference.
pub proof fn law_valid_declaration_complete(p: PropertyView, sigs: Seq<SignalView>)
    requires
        p.name.len() > 0,
        'a' <= p.name[0] <= 'z',
        forall|k: int| 0 <= k < p.name.len() ==> is_name_char(#[trigger] p.name[k]),
        !(p.member is Some && p.read_method is Some && p.write_method is Some),
        !(p.constant && p.write_method is Some),
        !(p.constant && p.notify_signal is Some),
        p.notify_signal matches Some(n) ==> exists|j: int|
            0 <= j < sigs.len() && #[trigger] sigs[j].rust_name == n && (forall|i: int|
                0 <= i < j ==> sigs[i].rust_name != n) && sigs[j].arg_types.len() <= 1 && (
            sigs[j].arg_types.len() == 1 && spec_deduced_type(p) is Some ==> (
            spec_deduced_type(p)->0.base == sigs[j].arg_types[0].base && (if spec_deduced_type(
                p,
            )->0.refs.len() > 0 {
                spec_deduced_type(p)->0.refs.drop_first()
            } else {
                spec_deduced_type(p)->0.refs
            }) == (if sigs[j].arg_types[0].refs.len() > 0 {
                sigs[j].arg_types[0].refs.drop_first()
            } else {
                sigs[j].arg_types[0].refs
            }))),
    ensures
        spec_validate(p, sigs) is Ok,
{
    law_name_check(p.name);
    if let Some(n) = p.notify_signal {
        let j = choose|j: int|
            0 <= j < sigs.len() && #[trigger] sigs[j].rust_name == n && (forall|i: int|
                0 <= i < j ==> sigs[i].rust_name != n) && sigs[j].arg_types.len() <= 1 && (
            sigs[j].arg_types.len() == 1 && spec_deduced_type(p) is Some ==> (
            spec_deduced_type(p)->0.base == sigs[j].arg_types[0].base && (if spec_deduced_type(
                p,
            )->0.refs.len() > 0 {
                spec_deduced_type(p)->0.refs.drop_first()
            } else {
                spec_deduced_type(p)->0.refs
            }) == (if sigs[j].arg_types[0].refs.len() > 0 {
                sigs[j].arg_types[0].refs.drop_first()
            } else {
                sigs[j].arg_types[0].refs
            })));
        lemma_find_first_signal(sigs, n, 0, j);
    }
}

proof fn lemma_find_first_signal(sigs: Seq<SignalView>, name: Seq<char>, i: int, j: int)
    requires
        0 <= i <= j < sigs.len(),
        sigs[j].rust_name == name,
        forall|k: int| 0 <= k < j ==> sigs[k].rust_name != name,
    ensures
        find_signal_from(sigs, name, i) == Some(j),
    decreases j - i,
{
    if i < j {
        lemma_find_first_signal(sigs, name, i + 1, j);
    }
}

/// A setter is handed the value as its parameter takes it: by value when
/// the setter's type is no reference, by `&mut` when its outermost reference
/// is mutable, by `&` when it is shared. A non-constant property with a
/// setter and a deduced setter type is always written through the setter.
pub proof fn law_setter_takes_value_as_declared(p: PropertyView, signal: Option<SignalView>)
    requires
        !p.constant,
        p.write_method is Some,
        p.setter_type is Some,
    ensures
        spec_write_code(p, signal) matches Ok(Some(WriteCodeView::Setter { name, setter, pass }))
            && name == p.name && setter == p.write_method->0 && (p.setter_type->0.refs.len()
            == 0 ==> pass == ValuePass::ByValue) && (p.setter_type->0.refs.len() > 0
            && p.setter_type->0.refs[0] ==> pass == ValuePass::ByMutReference) && (
        p.setter_type->0.refs.len() > 0 && !p.setter_type->0.refs[0] ==> pass
            == ValuePass::ByConstReference),
{
}

/// A member write emits the notify signal with its argument passed as the
/// signal's first argument type takes it: by value, `&mut` or `&`, after its
/// outermost reference.
pub proof fn law_notify_argument_as_declared(p: PropertyView, sig: SignalView)
    requires
        spec_write_code(p, Some(sig)) matches Ok(Some(WriteCodeView::Member { notify: Some(_), .. })),
    ensures
        spec_write_code(p, Some(sig)) matches Ok(
            Some(WriteCodeView::Member { member, notify: Some((n, pass)), .. }),
        ) && Some(member) == p.member && p.write_method is None && !p.constant && Some(n)
            == p.notify_signal && n == sig.rust_name && (sig.arg_types.len() == 0 <==> pass is None)
            && (sig.arg_types.len() > 0 && sig.arg_types[0].refs.len() == 0 ==> pass == Some(
            ValuePass::ByValue,
        )) && (sig.arg_types.len() > 0 && sig.arg_types[0].refs.len() > 0
            && sig.arg_types[0].refs[0] ==> pass == Some(ValuePass::ByMutReference)) && (
        sig.arg_types.len() > 0 && sig.arg_types[0].refs.len() > 0 && !sig.arg_types[0].refs[0]
            ==> pass == Some(ValuePass::ByConstReference)),
{
}

/// A constant property is never written; nor is a property with neither a
/// setter nor a member.
pub proof fn law_unwritten_properties(p: PropertyView, signal: Option<SignalView>)
    ensures
        p.constant ==> spec_write_code(p, signal) == Ok::<Option<WriteCodeView>, PropertyError>(
            None,
        ),
        p.write_method is None && p.member is None ==> spec_write_code(p, signal) == Ok::<
            Option<WriteCodeView>,
            PropertyError,
        >(None),
{
}

/// The registration carries the declaration as it stands: its name, id,
/// `Constant` and `Default` flags, a notify signal name exactly when the
/// property has a notify signal, and the deduced type without its outermost
/// reference (or the member when no type is deduced).
pub proof fn law_registration_carries_declaration(p: PropertyView, signal: Option<SignalView>)
    ensures
        spec_meta_registration(p, signal) matches Ok(r) ==> r.name == p.name && r.id == p.id
            && r.is_const == p.constant && r.default_property == p.default && (r.signal_name.len()
            == 0 <==> p.notify_signal is None) && (signal matches Some(s) ==> r.signal_name
            == s.qml_name) && (spec_deduced_type(p) matches Some(t) ==> r.metatype matches MetatypeView::Deduced(u)
            && u.base == t.base && (t.refs.len() == 0 ==> u.refs == t.refs) && (t.refs.len() > 0
            ==> u.refs == t.refs.subrange(1, t.refs.len() as int))) && (spec_deduced_type(p) is None
            ==> r.metatype == MetatypeView::MemberFallback(p.member->0)),
{
    if let Ok(r) = spec_meta_registration(p, signal) {
        if let Some(t) = spec_deduced_type(p) {
            if t.refs.len() > 0 {
                assert(t.refs.drop_first() =~= t.refs.subrange(1, t.refs.len() as int));
            }
        }
    }
}

/// A read takes a reference exactly of a getter that returns a value, and
/// reads the member only when there is no getter.
pub proof fn law_read_references_values_only(p: PropertyView)
    ensures
        spec_value_source(p) matches Ok(ValueSourceView::Getter { method, take_ref }) ==> Some(
            method,
        ) == p.read_method && p.getter_type is Some && (take_ref <==> p.getter_type->0.refs.len()
            == 0),
        spec_value_source(p) matches Ok(ValueSourceView::Member(m)) ==> p.read_method is None
            && Some(m) == p.member,
        p.read_method is Some && p.getter_type is Some ==> spec_value_source(p) is Ok,
        p.read_method is None && p.member is Some ==> spec_value_source(p) is Ok,
{
}

/// Setting the type changes nothing but the deduced types; a failed
/// deduction for a named accessor is the error, the getter's first; types
/// deduced from a getter and a setter must name the same type up to
/// references, else the setter's site reports the inconsistency; the
/// deductions of accessors the declaration does not name are ignored.
pub proof fn law_set_type_outcome<E>(
    p: PropertyView,
    getter: Option<Result<TypeView, E>>,
    setter: Option<Result<TypeView, E>>,
    member: Option<Result<TypeView, E>>,
)
    ensures
        spec_set_type(p, getter, setter, member) matches Ok(q) ==> q.name == p.name && q.id == p.id
            && q.read_method == p.read_method && q.write_method == p.write_method
            && q.notify_signal == p.notify_signal && q.member == p.member && q.constant
            == p.constant && q.default == p.default,
        getter matches Some(Err(e)) ==> (p.read_method is Some ==> spec_set_type(
            p,
            getter,
            setter,
            member,
        ) == Err::<PropertyView, SetTypeError<E>>(SetTypeError::Deduction(e))),
        p.read_method is None && p.write_method is None && p.member is None ==> spec_set_type(
            p,
            getter,
            setter,
            member,
        ) == Ok::<PropertyView, SetTypeError<E>>(p),
        getter matches Some(Ok(gt)) ==> (setter matches Some(Ok(st)) ==> (p.read_method is Some
            && p.write_method is Some && p.member is None ==> (spec_set_type(
            p,
            getter,
            setter,
            member,
        ) is Ok <==> gt.base == st.base) && (gt.base == st.base ==> spec_set_type(
            p,
            getter,
            setter,
            member,
        ) == Ok::<PropertyView, SetTypeError<E>>(
            PropertyView { getter_type: Some(gt), setter_type: Some(st), member_type: None, ..p },
        )) && (gt.base != st.base ==> spec_set_type(p, getter, setter, member) == Err::<
            PropertyView,
            SetTypeError<E>,
        >(
            SetTypeError::Property(
                PropertyError {
                    kind: ErrorKind::InconsistentTypes(Accessor::Getter, Accessor::Setter),
                    site: Site::Write,
                },
            ),
        )))),
        getter matches Some(Ok(gt)) ==> (p.read_method is Some && p.write_method is None
            && p.member is None ==> spec_set_type(p, getter, setter, member) == Ok::<
            PropertyView,
            SetTypeError<E>,
        >(PropertyView { getter_type: Some(gt), setter_type: None, member_type: None, ..p })),
        member matches Some(Ok(mt)) ==> (p.read_method is None && p.write_method is None
            && p.member is Some ==> spec_set_type(p, getter, setter, member) == Ok::<
            PropertyView,
            SetTypeError<E>,
        >(PropertyView { getter_type: None, setter_type: None, member_type: Some(mt), ..p })),
{
}

/// Which rule a declaration breaks first is the error `validate` gives: the
/// name rules, then `Member` with both `Read` and `Write`, then a constant
/// property's setter, then its notify signal, then the notify signal's
/// lookup, arity and type.
pub proof fn law_validation_errors(p: PropertyView, sigs: Seq<SignalView>)
    ensures
        p.name.len() == 0 ==> spec_validate(p, sigs) == Err::<(), PropertyError>(
            perr(ErrorKind::EmptyName, Site::Name),
        ),
        p.name.len() > 0 && is_name_char(p.name[0]) && !('a' <= p.name[0] <= 'z') ==> spec_validate(
            p,
            sigs,
        ) == Err::<(), PropertyError>(perr(ErrorKind::NameNotLowercase(p.name[0]), Site::Name)),
        spec_name_error(p.name) is None && p.member is Some && p.read_method is Some
            && p.write_method is Some ==> spec_validate(p, sigs) == Err::<(), PropertyError>(
            perr(ErrorKind::MemberWithReadAndWrite, Site::Member),
        ),
        spec_name_error(p.name) is None && !(p.member is Some && p.read_method is Some
            && p.write_method is Some) && p.constant && p.write_method is Some ==> spec_validate(
            p,
            sigs,
        ) == Err::<(), PropertyError>(perr(ErrorKind::ConstantWithWrite, Site::Write)),
        spec_name_error(p.name) is None && !(p.member is Some && p.read_method is Some
            && p.write_method is Some) && p.constant && p.write_method is None
            && p.notify_signal is Some ==> spec_validate(p, sigs) == Err::<(), PropertyError>(
            perr(ErrorKind::ConstantWithNotify, Site::Notify),
        ),
        p.notify_signal matches Some(n) ==> (spec_name_error(p.name) is None && !(p.member is Some
            && p.read_method is Some && p.write_method is Some) && !p.constant && (forall|j: int|
            0 <= j < sigs.len() ==> sigs[j].rust_name != n) ==> spec_validate(p, sigs) == Err::<
            (),
            PropertyError,
        >(perr(ErrorKind::SignalNotFound, Site::Notify))),
        p.notify_signal matches Some(n) ==> (spec_name_error(p.name) is None && !(p.member is Some
            && p.read_method is Some && p.write_method is Some) && !p.constant && (exists|j: int|
            0 <= j < sigs.len() && #[trigger] sigs[j].rust_name == n && (forall|i: int|
                0 <= i < j ==> sigs[i].rust_name != n) && sigs[j].arg_types.len() > 1)
            ==> spec_validate(p, sigs) == Err::<(), PropertyError>(
            perr(ErrorKind::BadNotifyArity, Site::Notify),
        )),
{
    if p.name.len() > 0 && is_name_char(p.name[0]) && !('a' <= p.name[0] <= 'z') {
        assert(!begins_lowercase(p.name[0]));
    }
    if let Some(n) = p.notify_signal {
        if forall|j: int| 0 <= j < sigs.len() ==> sigs[j].rust_name != n {
            lemma_signal_absent(sigs, n, 0);
        }
        if exists|j: int|
            0 <= j < sigs.len() && #[trigger] sigs[j].rust_name == n && (forall|i: int|
                0 <= i < j ==> sigs[i].rust_name != n) && sigs[j].arg_types.len() > 1 {
            let j = choose|j: int|
                0 <= j < sigs.len() && #[trigger] sigs[j].rust_name == n && (forall|i: int|
                    0 <= i < j ==> sigs[i].rust_name != n) && sigs[j].arg_types.len() > 1;
            lemma_find_first_signal(sigs, n, 0, j);
        }
    }
}

proof fn lemma_signal_absent(sigs: Seq<SignalView>, name: Seq<char>, i: int)
    requires
        0 <= i,
        forall|j: int| 0 <= j < sigs.len() ==> sigs[j].rust_name != name,
    ensures
        find_signal_from(sigs, name, i) is None,
    decreases sigs.len() - i,
{
    if i < sigs.len() {
        lemma_signal_absent(sigs, name, i + 1);
    }
}
} // verus!
