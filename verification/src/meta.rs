//! The property part of a type's meta-object registration: every property
//! is registered in declaration order, each with its notify signal.
use vstd::prelude::*;
use crate::qproperty::{
    find_signal, find_signal_from, perr, signals_view, spec_meta_registration, ErrorKind,
    MetaRegistration, MetaRegistrationView, PropertyError, PropertyView, QPropertyInfo,
    QSignalInfo, SignalView, Site,
};

verus! {

/// The registration of one property, with the first signal named by its
/// `Notify` attribute.
pub open spec fn spec_property_registration(p: PropertyView, sigs: Seq<SignalView>) -> Result<
    MetaRegistrationView,
    PropertyError,
> {
    match p.notify_signal {
        Some(n) => match find_signal_from(sigs, n, 0) {
            None => Err(perr(ErrorKind::SignalNotFound, Site::Notify)),
            Some(j) => spec_meta_registration(p, Some(sigs[j])),
        },
        None => spec_meta_registration(p, None),
    }
}

/// The registrations of the first `n` properties; the first failure, with
/// the index of its property.
pub open spec fn spec_registrations(props: Seq<PropertyView>, sigs: Seq<SignalView>, n: nat) -> Result<
    Seq<MetaRegistrationView>,
    (usize, PropertyError),
>
    decreases n,
{
    if n == 0 {
        Ok(Seq::empty())
    } else {
        match spec_registrations(props, sigs, (n - 1) as nat) {
            Err(e) => Err(e),
            Ok(rs) => match spec_property_registration(props[n - 1], sigs) {
                Ok(r) => Ok(rs.push(r)),
                Err(e) => Err(((n - 1) as usize, e)),
            },
        }
    }
}

/// Once a registration fails, the failure stands for every longer prefix.
proof fn lemma_failure_stands(props: Seq<PropertyView>, sigs: Seq<SignalView>, n: nat, m: nat)
    requires
        n <= m,
        spec_registrations(props, sigs, n) is Err,
    ensures
        spec_registrations(props, sigs, m) == spec_registrations(props, sigs, n),
    decreases m - n,
{
    if n < m {
        lemma_failure_stands(props, sigs, n, (m - 1) as nat);
    }
}

/// The values of a slice of declarations.
pub open spec fn properties_view(props: Seq<QPropertyInfo>) -> Seq<PropertyView> {
    props.map_values(|p: QPropertyInfo| p@)
}

/// The registrations of all properties, in declaration order.
pub fn generate_properties_meta_registration(
    properties: &[QPropertyInfo],
    signals: &[QSignalInfo],
) -> (r: Result<Vec<MetaRegistration>, (usize, PropertyError)>)
    ensures
        match r {
            Ok(v) => spec_registrations(
                properties_view(properties@),
                signals_view(signals@),
                properties@.len(),
            ) == Ok::<Seq<MetaRegistrationView>, (usize, PropertyError)>(
                v@.map_values(|m: MetaRegistration| m@),
            ),
            Err(e) => spec_registrations(
                properties_view(properties@),
                signals_view(signals@),
                properties@.len(),
            ) == Err::<Seq<MetaRegistrationView>, (usize, PropertyError)>(e),
        },
{
    let ghost pv = properties_view(properties@);
    let ghost sv = signals_view(signals@);
    let mut result: Vec<MetaRegistration> = Vec::new();
    assert(result@.map_values(|m: MetaRegistration| m@) =~= Seq::<MetaRegistrationView>::empty());
    for i in 0..properties.len()
        invariant
            pv == properties_view(properties@),
            sv == signals_view(signals@),
            spec_registrations(pv, sv, i as nat) == Ok::<
                Seq<MetaRegistrationView>,
                (usize, PropertyError),
            >(result@.map_values(|m: MetaRegistration| m@)),
    {
        let property = &properties[i];
        assert(pv[i as int] == property@);
        let mut signal: Option<&QSignalInfo> = None;
        match property.get_notify_signal() {
            Some(notify) => {
                match find_signal(signals, notify) {
                    Some(j) => {
                        assert(sv[j as int] == signals@[j as int]@);
                        signal = Some(&signals[j]);
                    },
                    None => {
                        proof {
                            lemma_failure_stands(pv, sv, (i + 1) as nat, properties@.len());
                        }
                        return Err((i, PropertyError { kind: ErrorKind::SignalNotFound, site: Site::Notify }));
                    },
                }
            },
            None => {},
        }
        match property.get_meta_registration_code(signal) {
            Ok(m) => {
                let ghost before = result@;
                result.push(m);
                assert(result@.map_values(|m: MetaRegistration| m@) =~= before.map_values(
                    |m: MetaRegistration| m@,
                ).push(m@));
            },
            Err(e) => {
                proof {
                    lemma_failure_stands(pv, sv, (i + 1) as nat, properties@.len());
                }
                return Err((i, e));
            },
        }
    }
    Ok(result)
}

} // verus!
