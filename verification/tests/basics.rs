//! Scenarios for the small building blocks: identifiers, field change
//! markers, change sets, value equality and count shapes.

use kamus::changes::{AttachmentMod, FieldMod};
use kamus::items::cakupan::Cakupan;
use kamus::items::kata_asing::KataAsing;
use kamus::items::konsep::Konsep;
use kamus::items::lemma::Lemma;
use kamus::metatype::AutoGen;
use kamus::states::Counts;

#[test]
fn unknown_identifiers_compare_equal() {
    assert_eq!(AutoGen::Unknown, AutoGen::Unknown);
    assert_eq!(AutoGen::Known(1), AutoGen::Known(1));
    assert_ne!(AutoGen::Known(1), AutoGen::Known(2));
    assert_ne!(AutoGen::Known(1), AutoGen::Unknown);
}

#[test]
fn field_compare_marks_changes() {
    assert_eq!(
        FieldMod::compare("a".to_string(), "a".to_string()),
        FieldMod::Fixed("a".to_string())
    );
    assert_eq!(
        FieldMod::compare("a".to_string(), "b".to_string()),
        FieldMod::New("b".to_string())
    );
}

#[test]
fn field_value_ignores_the_variant() {
    assert_eq!(FieldMod::New("a".to_string()).value(), "a");
    assert_eq!(FieldMod::Fixed("b".to_string()).value(), "b");
}

#[test]
fn empty_change_set_has_nothing_to_do() {
    let am: AttachmentMod<Cakupan> = AttachmentMod::empty();
    assert!(am.attached.is_empty());
    assert!(am.detached.is_empty());
    assert!(am.modified.is_empty());
}

#[test]
fn tag_accessors_carry_the_text() {
    assert_eq!(Cakupan::null().value(), String::new());
    let c = Cakupan::new("Umum".to_string());
    assert_eq!(c.value(), "Umum".to_string());
    assert_eq!(c.to_string(), "Umum".to_string());
    let k = KataAsing::null();
    assert_eq!(k.nama, String::new());
    assert_eq!(k.bahasa, String::new());
}

#[test]
fn null_concept_is_empty_and_unidentified() {
    let k = Konsep::null();
    assert_eq!(k.id, AutoGen::Unknown);
    assert_eq!(k.keterangan, String::new());
    assert_eq!(k.golongan_kata, String::new());
    assert!(k.cakupans.is_empty());
    assert!(k.kata_asing.is_empty());
}

#[test]
fn concept_equality_ignores_tag_order_and_identifier() {
    let a = Konsep {
        id: AutoGen::Known(1),
        keterangan: "k".to_string(),
        golongan_kata: "kata nama".to_string(),
        cakupans: vec![
            Cakupan::new("a".to_string()),
            Cakupan::new("b".to_string()),
        ],
        kata_asing: vec![],
    };
    let b = Konsep {
        id: AutoGen::Known(2),
        keterangan: "k".to_string(),
        golongan_kata: "kata nama".to_string(),
        cakupans: vec![
            Cakupan::new("b".to_string()),
            Cakupan::new("a".to_string()),
        ],
        kata_asing: vec![],
    };
    assert_eq!(a, b);
    let mut c = Konsep {
        id: AutoGen::Known(1),
        keterangan: "k".to_string(),
        golongan_kata: "kata nama".to_string(),
        cakupans: vec![Cakupan::new("a".to_string())],
        kata_asing: vec![],
    };
    assert_ne!(a, c);
    c.keterangan = "lain".to_string();
    assert_ne!(a, c);
}

#[test]
fn entry_equality_ignores_concept_order_and_identifier() {
    let k1 = Konsep {
        id: AutoGen::Known(1),
        keterangan: "satu".to_string(),
        golongan_kata: "kata nama".to_string(),
        cakupans: vec![],
        kata_asing: vec![],
    };
    let k2 = Konsep {
        id: AutoGen::Known(2),
        keterangan: "dua".to_string(),
        golongan_kata: "kata nama".to_string(),
        cakupans: vec![],
        kata_asing: vec![],
    };
    let a = Lemma {
        id: AutoGen::Known(1),
        lemma: "cubaan".to_string(),
        konseps: vec![k1.clone(), k2.clone()],
    };
    let b = Lemma {
        id: AutoGen::Unknown,
        lemma: "cubaan".to_string(),
        konseps: vec![k2.clone(), k1.clone()],
    };
    assert_eq!(a, b);
    let c = Lemma {
        id: AutoGen::Known(1),
        lemma: "cubaan".to_string(),
        konseps: vec![k1.clone()],
    };
    assert_ne!(a, c);
}

#[test]
fn absent_counts_read_as_zero() {
    let counts = Counts {
        lemmas: Some(3),
        konseps: None,
        golongan_katas: Some(0),
        cakupans: None,
        kata_asings: Some(7),
    };
    let plain = counts.unwrap_fields();
    assert_eq!(plain.lemmas, 3);
    assert_eq!(plain.konseps, 0);
    assert_eq!(plain.golongan_katas, 0);
    assert_eq!(plain.cakupans, 0);
    assert_eq!(plain.kata_asings, 7);
}

#[test]
fn identifier_order_puts_unknown_first() {
    assert!(AutoGen::Unknown.le(&AutoGen::Known(-5)));
    assert!(AutoGen::Known(1).le(&AutoGen::Known(2)));
    assert!(!AutoGen::Known(2).le(&AutoGen::Known(1)));
    assert!(!AutoGen::Known(0).le(&AutoGen::Unknown));
}
