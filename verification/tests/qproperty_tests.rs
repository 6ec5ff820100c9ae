use qtbridge::meta::generate_properties_meta_registration;
use qtbridge::qproperty::{
    Accessor, ErrorKind, Keyword, MetatypeSource, PropType, PropertyError, QPropertyInfo, QSignalInfo,
    SetTypeError, Site, Token, ValuePass, ValueSource, WriteCode,
};

fn s(x: &str) -> Token {
    Token::Str(x.to_string())
}
fn id(x: &str) -> Token {
    Token::Ident(x.to_string())
}
fn c() -> Token {
    Token::Punct(',')
}
fn eq() -> Token {
    Token::Punct('=')
}
fn ty(base: &str, refs: &[bool]) -> PropType {
    PropType { base: base.to_string(), refs: refs.to_vec() }
}
fn signal(rust: &str, qml: &str, args: Vec<PropType>) -> QSignalInfo {
    QSignalInfo { rust_name: rust.to_string(), qml_name: qml.to_string(), arg_types: args }
}
fn err(kind: ErrorKind, site: Site) -> PropertyError {
    PropertyError { kind, site }
}
fn parse(tokens: &[Token]) -> Result<QPropertyInfo, PropertyError> {
    QPropertyInfo::parse(tokens)
}

#[test]
fn parses_a_full_declaration() {
    let p = parse(&[s("prop"), c(), id("Read"), eq(), id("get_prop"), c(), id("Write"), eq(), id("set_prop"),
        c(), id("Notify"), eq(), id("prop_changed"), c(), id("Default")]).unwrap();
    assert_eq!(p.get_qml_name(), "prop");
    assert_eq!(p.get_notify_signal().map(|x| x.as_str()), Some("prop_changed"));
    assert!(!p.is_const());
    assert_eq!(p.id(), 0);
}

#[test]
fn accepts_a_trailing_comma() {
    let p = parse(&[s("prop"), c(), id("Member"), eq(), id("prop"), c()]).unwrap();
    assert_eq!(p.get_qml_name(), "prop");
    let p = parse(&[s("prop"), c(), id("Constant"), c()]).unwrap();
    assert!(p.is_const());
}

#[test]
fn refuses_malformed_bodies() {
    assert_eq!(parse(&[]).err(), Some(err(ErrorKind::MissingName, Site::Token(0))));
    assert_eq!(parse(&[id("prop")]).err(), Some(err(ErrorKind::MissingName, Site::Token(0))));
    assert_eq!(parse(&[s("p"), id("Read")]).err(), Some(err(ErrorKind::ExpectedComma, Site::Token(1))));
    assert_eq!(parse(&[s("p"), c(), c()]).err(), Some(err(ErrorKind::ExpectedIdentifier, Site::Token(2))));
    assert_eq!(parse(&[s("p"), c(), id("Bogus")]).err(), Some(err(ErrorKind::UnsupportedAttribute, Site::Token(2))));
    assert_eq!(parse(&[s("p"), c(), id("Read"), eq()]).err(),
        Some(err(ErrorKind::MalformedAttribute(Keyword::Read), Site::Token(2))));
    assert_eq!(parse(&[s("p"), c(), id("Read"), eq(), s("x")]).err(),
        Some(err(ErrorKind::MalformedAttribute(Keyword::Read), Site::Token(2))));
}

#[test]
fn an_attribute_is_given_once() {
    let r = parse(&[s("p"), c(), id("Member"), eq(), id("a"), c(), id("Member"), eq(), id("b")]);
    assert_eq!(r.err(), Some(err(ErrorKind::DuplicateAttribute(Keyword::Member), Site::Token(6))));
}

#[test]
fn new_reads_only_qproperty_macros() {
    let body = [s("p"), c(), id("Member"), eq(), id("p")];
    assert!(QPropertyInfo::new(false, false, &body, 3).unwrap().is_none());
    assert_eq!(QPropertyInfo::new(true, true, &body, 3).err(), Some(err(ErrorKind::AttributesNotSupported, Site::Attribute)));
    let p = QPropertyInfo::new(true, false, &body, 3).unwrap().unwrap();
    assert_eq!(p.id(), 3);
}

#[test]
fn validates_names() {
    let ok = parse(&[s("my_prop1"), c(), id("Member"), eq(), id("m")]).unwrap();
    assert!(ok.validate_name().is_ok());
    let empty = parse(&[s(""), c(), id("Member"), eq(), id("m")]).unwrap();
    assert_eq!(empty.validate_name().err(), Some(err(ErrorKind::EmptyName, Site::Name)));
    let upper = parse(&[s("Prop"), c(), id("Member"), eq(), id("m")]).unwrap();
    assert_eq!(upper.validate_name().err(), Some(err(ErrorKind::NameNotLowercase('P'), Site::Name)));
    let illegal = parse(&[s("my-prop"), c(), id("Member"), eq(), id("m")]).unwrap();
    assert_eq!(illegal.validate_name().err(), Some(err(ErrorKind::IllegalNameChar('-'), Site::Name)));
    let unicode = parse(&[s("été"), c(), id("Member"), eq(), id("m")]).unwrap();
    assert_eq!(unicode.validate_name().err(), Some(err(ErrorKind::IllegalNameChar('é'), Site::Name)));
}

#[test]
fn validates_flag_combinations() {
    let p = parse(&[s("p"), c(), id("Member"), eq(), id("m"), c(), id("Read"), eq(), id("r"), c(), id("Write"), eq(), id("w")]).unwrap();
    assert_eq!(p.validate(&[]).err(), Some(err(ErrorKind::MemberWithReadAndWrite, Site::Member)));
    let p = parse(&[s("p"), c(), id("Constant"), c(), id("Write"), eq(), id("w")]).unwrap();
    assert_eq!(p.validate(&[]).err(), Some(err(ErrorKind::ConstantWithWrite, Site::Write)));
    let p = parse(&[s("p"), c(), id("Constant"), c(), id("Notify"), eq(), id("n")]).unwrap();
    assert_eq!(p.validate(&[]).err(), Some(err(ErrorKind::ConstantWithNotify, Site::Notify)));
}

#[test]
fn validates_the_notify_signal() {
    let mut p = parse(&[s("p"), c(), id("Read"), eq(), id("get"), c(), id("Notify"), eq(), id("changed")]).unwrap();
    assert_eq!(p.validate(&[]).err(), Some(err(ErrorKind::SignalNotFound, Site::Notify)));
    assert!(p.validate(&[signal("changed", "changed", vec![])]).is_ok());
    let two = signal("changed", "changed", vec![ty("i32", &[]), ty("i32", &[])]);
    assert_eq!(p.validate(&[two]).err(), Some(err(ErrorKind::BadNotifyArity, Site::Notify)));
    // Without a deduced type, a one-argument signal is accepted.
    assert!(p.validate(&[signal("changed", "changed", vec![ty("String", &[])])]).is_ok());
    p.set_type::<String>(Some(Ok(ty("i32", &[false]))), None, None).unwrap();
    assert!(p.validate(&[signal("changed", "changed", vec![ty("i32", &[])])]).is_ok());
    let sigs = [signal("other", "other", vec![]), signal("changed", "changed", vec![ty("String", &[])])];
    assert_eq!(p.validate(&sigs).err(), Some(err(ErrorKind::TypeMismatch(1), Site::Notify)));
}

#[test]
fn a_single_default_property() {
    let a = parse(&[s("a"), c(), id("Member"), eq(), id("a"), c(), id("Default")]).unwrap();
    let b = parse(&[s("b"), c(), id("Member"), eq(), id("b")]).unwrap();
    let d = parse(&[s("d"), c(), id("Member"), eq(), id("d"), c(), id("Default")]).unwrap();
    let e = parse(&[s("e"), c(), id("Member"), eq(), id("e"), c(), id("Default")]).unwrap();
    assert!(QPropertyInfo::check_single_default_property(&[]).is_ok());
    let list = [a, b, d, e];
    assert!(QPropertyInfo::check_single_default_property(&list[..2]).is_ok());
    assert_eq!(QPropertyInfo::check_single_default_property(&list).err(),
        Some(err(ErrorKind::MultipleDefault(0, 2), Site::Default)));
}

#[test]
fn set_type_checks_consistency() {
    let mut p = parse(&[s("p"), c(), id("Read"), eq(), id("get"), c(), id("Write"), eq(), id("set")]).unwrap();
    let r = p.set_type::<String>(Some(Ok(ty("i32", &[false]))), Some(Ok(ty("u32", &[]))), None);
    assert!(matches!(r, Err(SetTypeError::Property(e)) if e == err(ErrorKind::InconsistentTypes(Accessor::Getter, Accessor::Setter), Site::Write)));
    assert!(p.get_deduced_type().is_none());
    let r = p.set_type(Some(Err("no getter".to_string())), Some(Ok(ty("u32", &[]))), None);
    assert!(matches!(r, Err(SetTypeError::Deduction(m)) if m == "no getter"));
    // A member deduction counts only for a declared member.
    p.set_type::<String>(Some(Ok(ty("i32", &[false]))), Some(Ok(ty("i32", &[]))), Some(Ok(ty("bool", &[])))).unwrap();
    assert_eq!(p.get_deduced_type().unwrap().base, "i32");
    assert_eq!(p.get_deduced_type().unwrap().refs, vec![false]);
}

#[test]
fn meta_registration_plan() {
    let mut p = parse(&[s("value"), c(), id("Read"), eq(), id("get"), c(), id("Notify"), eq(), id("value_changed"), c(), id("Default")]).unwrap();
    let sig = signal("value_changed", "valueChanged", vec![]);
    p.set_type::<String>(Some(Ok(ty("String", &[false]))), None, None).unwrap();
    let m = p.get_meta_registration_code(Some(&sig)).unwrap();
    assert_eq!(m.name, "value");
    assert_eq!(m.signal_name, "valueChanged");
    assert!(m.default_property);
    assert!(!m.is_const);
    assert!(matches!(m.metatype, MetatypeSource::Deduced(ref t) if t.base == "String" && t.refs.is_empty()));
    assert_eq!(p.get_meta_registration_code(None).err(), Some(err(ErrorKind::SignalNameMismatch, Site::Whole)));
    let bare = parse(&[s("x"), c(), id("Constant")]).unwrap();
    assert_eq!(bare.get_meta_registration_code(None).err(), Some(err(ErrorKind::UndeducibleType, Site::Whole)));
    let member = parse(&[s("x"), c(), id("Member"), eq(), id("x_field")]).unwrap();
    let m = member.get_meta_registration_code(None).unwrap();
    assert!(matches!(m.metatype, MetatypeSource::MemberFallback(ref f) if f == "x_field"));
    assert_eq!(m.signal_name, "");
}

#[test]
fn read_plans() {
    let mut p = parse(&[s("x"), c(), id("Read"), eq(), id("get_x")]).unwrap();
    assert_eq!(p.get_read_code().err(), Some(err(ErrorKind::GetterTypeMissing, Site::Read)));
    p.set_type::<String>(Some(Ok(ty("i32", &[]))), None, None).unwrap();
    assert!(matches!(p.get_read_code().unwrap(), ValueSource::Getter { ref method, take_ref: true } if method == "get_x"));
    let member = parse(&[s("x"), c(), id("Member"), eq(), id("x")]).unwrap();
    assert!(matches!(member.get_value_src_ref().unwrap(), ValueSource::Member(ref m) if m == "x"));
    let sig = signal("x_changed", "xChanged", vec![]);
    let (src, name) = member.get_read_notifying_code(&sig).unwrap();
    assert!(matches!(src, ValueSource::Member(_)));
    assert_eq!(name, "x_changed");
    let neither = parse(&[s("x"), c(), id("Constant")]).unwrap();
    assert_eq!(neither.get_value_src_ref().err(), Some(err(ErrorKind::NoReadOrMember, Site::Whole)));
}

#[test]
fn write_plans() {
    let constant = parse(&[s("x"), c(), id("Constant"), c(), id("Member"), eq(), id("x")]).unwrap();
    assert!(constant.get_write_code(None).unwrap().is_none());
    let mut setter = parse(&[s("x"), c(), id("Write"), eq(), id("set_x")]).unwrap();
    assert_eq!(setter.get_write_code(None).err(), Some(err(ErrorKind::SetterTypeMissing, Site::Write)));
    setter.set_type::<String>(None, Some(Ok(ty("String", &[false]))), None).unwrap();
    assert!(matches!(setter.get_write_code(None).unwrap(),
        Some(WriteCode::Setter { ref setter, pass: ValuePass::ByConstReference, .. }) if setter == "set_x"));
    let read_only = parse(&[s("x"), c(), id("Read"), eq(), id("get_x")]).unwrap();
    assert!(read_only.get_write_code(None).unwrap().is_none());
    let notified = parse(&[s("x"), c(), id("Member"), eq(), id("x"), c(), id("Notify"), eq(), id("x_changed")]).unwrap();
    assert_eq!(notified.get_write_code(None).err(), Some(err(ErrorKind::SignalInfoMissing, Site::Notify)));
    let wrong = signal("other", "other", vec![]);
    assert_eq!(notified.get_write_code(Some(&wrong)).err(), Some(err(ErrorKind::InconsistentSignalName, Site::Whole)));
    let sig = signal("x_changed", "xChanged", vec![ty("i32", &[true])]);
    assert!(matches!(notified.get_write_code(Some(&sig)).unwrap(),
        Some(WriteCode::Member { ref member, notify: Some((ref n, Some(ValuePass::ByMutReference))), .. })
            if member == "x" && n == "x_changed"));
    let plain = parse(&[s("x"), c(), id("Member"), eq(), id("x")]).unwrap();
    assert!(matches!(plain.get_write_code(None).unwrap(), Some(WriteCode::Member { notify: None, .. })));
}

#[test]
fn properties_are_registered_with_their_signals() {
    let a = parse(&[s("a"), c(), id("Member"), eq(), id("a"), c(), id("Notify"), eq(), id("a_changed")]).unwrap();
    let b = parse(&[s("b"), c(), id("Member"), eq(), id("b")]).unwrap();
    let sigs = [signal("a_changed", "aChanged", vec![])];
    let regs = generate_properties_meta_registration(&[a, b], &sigs).unwrap();
    assert_eq!(regs.len(), 2);
    assert_eq!(regs[0].signal_name, "aChanged");
    assert_eq!(regs[1].signal_name, "");
    let c2 = parse(&[s("c"), c(), id("Member"), eq(), id("c"), c(), id("Notify"), eq(), id("missing")]).unwrap();
    let r = generate_properties_meta_registration(&[c2], &sigs);
    assert_eq!(r.err(), Some((0, err(ErrorKind::SignalNotFound, Site::Notify))));
}
