use vidyut_prakriya::args::{Antargana, Dhatu, Sanadi};
use vidyut_prakriya::errors::DhatupathaError;

#[test]
fn build_keeps_its_fields() {
    let d = Dhatu::build("kuwa~", 6, Some(Antargana::Kutadi)).unwrap();
    assert_eq!(d.upadesha(), "kuwa~");
    assert_eq!(d.gana(), 6);
    assert_eq!(d.antargana(), Some(Antargana::Kutadi));
    assert_eq!(d.sanadi(), None);
}

#[test]
fn build_checks_nothing_but_the_upadesha() {
    let d = Dhatu::build("x", 0, Some(Antargana::Akusmiya)).unwrap();
    assert_eq!(d.gana(), 0);
    assert_eq!(d.antargana(), Some(Antargana::Akusmiya));
    assert!(Dhatu::build(" ", 255, None).is_ok());
}

#[test]
fn build_refuses_an_empty_upadesha() {
    assert_eq!(Dhatu::build("", 1, None), Err(DhatupathaError::BuildFailure));
    assert_eq!(
        Dhatu::build("", 6, Some(Antargana::Kutadi)),
        Err(DhatupathaError::BuildFailure)
    );
}

#[test]
fn with_sanadi_changes_the_sanadi_only() {
    let d = Dhatu::build("BU", 1, None).unwrap();
    let s = d.with_sanadi(Sanadi::San);
    assert_eq!(s.sanadi(), Some(Sanadi::San));
    assert_eq!(s.upadesha(), "BU");
    assert_eq!(s.gana(), 1);
    assert_eq!(s.antargana(), None);
    assert_eq!(d.sanadi(), None);
    assert_eq!(s.with_sanadi(Sanadi::Nic).sanadi(), Some(Sanadi::Nic));
    assert_ne!(d, s);
}

#[test]
fn clone_is_equal() {
    let d = Dhatu::build("kuwa~", 6, Some(Antargana::Kutadi)).unwrap().with_sanadi(Sanadi::Yan);
    let c = d.clone();
    assert_eq!(c, d);
    assert_eq!(c.upadesha(), "kuwa~");
    assert_eq!(c.sanadi(), Some(Sanadi::Yan));
}
