//! Scenarios exercising the stated rules of the diff: self-diff is a
//! no-op, identity governs success, the round trip rebuilds scalars,
//! pairing failures are loud, and fresh subtrees are fully attached.

use kamus::changes::FieldMod;
use kamus::errors::DiffError;
use kamus::interface::Item;
use kamus::items::cakupan::Cakupan;
use kamus::items::kata_asing::KataAsing;
use kamus::items::konsep::Konsep;
use kamus::items::lemma::Lemma;
use kamus::metatype::AutoGen;

fn sample_konsep(id: AutoGen, keterangan: &str) -> Konsep {
    Konsep {
        id,
        keterangan: keterangan.to_string(),
        golongan_kata: "kata nama".to_string(),
        cakupans: vec![Cakupan::new("Astrofizik".to_string())],
        kata_asing: vec![KataAsing {
            nama: "accretion disk".to_string(),
            bahasa: "english".to_string(),
        }],
    }
}

fn sample_lemma() -> Lemma {
    Lemma {
        id: AutoGen::Known(1),
        lemma: "cakera tokokan".to_string(),
        konseps: vec![
            sample_konsep(AutoGen::Known(1), "gas-gas dan debu"),
            sample_konsep(AutoGen::Known(2), "cakera yang ditokok tambah"),
        ],
    }
}

#[test]
fn self_diff_changes_nothing() {
    let e = sample_lemma();
    let m = e.modify_into(&e).unwrap();
    assert!(matches!(m.lemma, FieldMod::Fixed(_)));
    assert!(m.konseps.attached.is_empty());
    assert!(m.konseps.detached.is_empty());
    assert_eq!(m.konseps.modified.len(), 2);
    for km in &m.konseps.modified {
        assert!(matches!(km.keterangan, FieldMod::Fixed(_)));
        assert!(matches!(km.golongan_kata, FieldMod::Fixed(_)));
        assert!(km.cakupans.attached.is_empty());
        assert!(km.cakupans.detached.is_empty());
        assert!(km.cakupans.modified.is_empty());
        assert!(km.kata_asing.attached.is_empty());
        assert!(km.kata_asing.detached.is_empty());
        assert!(km.kata_asing.modified.is_empty());
    }
}

#[test]
fn equal_known_identity_succeeds() {
    let old = sample_lemma();
    let mut new = sample_lemma();
    new.konseps[0].keterangan = "makna baharu".to_string();
    let m = old.modify_into(&new).unwrap();
    assert_eq!(m.konseps.modified.len(), 2);
    assert_eq!(
        m.konseps.modified[0].keterangan,
        FieldMod::New("makna baharu".to_string())
    );
}

#[test]
fn differing_known_identities_fail() {
    let old = sample_lemma();
    let mut new = sample_lemma();
    new.id = AutoGen::Known(7);
    assert_eq!(old.modify_into(&new), Err(DiffError::IdentityMismatch));
}

#[test]
fn round_trip_rebuilds_new_scalars() {
    let old = sample_lemma();
    let mut new = sample_lemma();
    new.lemma = "cakera".to_string();
    let m = old.modify_into(&new).unwrap();
    let shallow = Lemma::partial_from_mod(&m);
    assert_eq!(shallow.id, AutoGen::Known(1));
    assert_eq!(shallow.lemma, "cakera".to_string());
    assert!(shallow.konseps.is_empty());

    let k_old = sample_konsep(AutoGen::Known(3), "makna lama");
    let mut k_new = sample_konsep(AutoGen::Known(3), "makna baharu");
    k_new.golongan_kata = "kata kerja".to_string();
    let km = k_old.modify_into(&k_new).unwrap();
    let k_shallow = Konsep::partial_from_mod(&km);
    assert_eq!(k_shallow.id, AutoGen::Known(3));
    assert_eq!(k_shallow.keterangan, "makna baharu".to_string());
    assert_eq!(k_shallow.golongan_kata, "kata kerja".to_string());
    assert!(k_shallow.cakupans.is_empty());
    assert!(k_shallow.kata_asing.is_empty());
}

#[test]
fn omitted_identifier_is_a_loud_failure() {
    let old = sample_lemma();
    // The caller meant to modify concept 2 but supplied a fresh concept
    // without its identifier and a concept under an identifier the old
    // entry never had: the sides can no longer be paired.
    let new = Lemma {
        id: AutoGen::Known(1),
        lemma: "cakera tokokan".to_string(),
        konseps: vec![
            sample_konsep(AutoGen::Known(1), "gas-gas dan debu"),
            sample_konsep(AutoGen::Known(4), "cakera yang ditokok tambah"),
        ],
    };
    assert_eq!(
        old.modify_into(&new),
        Err(DiffError::PairingCardinalityMismatch)
    );
}

#[test]
fn fresh_child_is_fully_attached() {
    let old = Lemma {
        id: AutoGen::Known(1),
        lemma: "cakera tokokan".to_string(),
        konseps: vec![],
    };
    let new = Lemma {
        id: AutoGen::Known(1),
        lemma: "cakera tokokan".to_string(),
        konseps: vec![Konsep {
            id: AutoGen::Unknown,
            keterangan: "konsep baharu".to_string(),
            golongan_kata: "kata nama".to_string(),
            cakupans: vec![
                Cakupan::new("Umum".to_string()),
                Cakupan::new("Tidak Umum".to_string()),
            ],
            kata_asing: vec![KataAsing {
                nama: "brand new".to_string(),
                bahasa: "english".to_string(),
            }],
        }],
    };
    let m = old.modify_into(&new).unwrap();
    assert_eq!(m.konseps.attached.len(), 1);
    assert!(m.konseps.detached.is_empty());
    assert!(m.konseps.modified.is_empty());
    let fresh = &m.konseps.attached[0];
    assert_eq!(fresh.id, AutoGen::Unknown);
    assert!(matches!(fresh.keterangan, FieldMod::Fixed(_)));
    assert_eq!(
        fresh.cakupans.attached,
        vec![
            Cakupan::new("Umum".to_string()),
            Cakupan::new("Tidak Umum".to_string()),
        ]
    );
    assert!(fresh.cakupans.detached.is_empty());
    assert!(fresh.cakupans.modified.is_empty());
    assert_eq!(fresh.kata_asing.attached.len(), 1);
    assert!(fresh.kata_asing.detached.is_empty());
    assert!(fresh.kata_asing.modified.is_empty());
}

#[test]
fn mixed_known_and_unknown_identity_fail() {
    let old = sample_lemma();
    let mut new = sample_lemma();
    new.id = AutoGen::Unknown;
    assert_eq!(old.modify_into(&new), Err(DiffError::IdentityMismatch));
}

#[test]
fn modified_pairs_come_sorted_by_identifier() {
    let old = Lemma {
        id: AutoGen::Known(1),
        lemma: "cubaan".to_string(),
        konseps: vec![
            sample_konsep(AutoGen::Known(3), "tiga"),
            sample_konsep(AutoGen::Known(1), "satu"),
        ],
    };
    let new = Lemma {
        id: AutoGen::Known(1),
        lemma: "cubaan".to_string(),
        konseps: vec![
            sample_konsep(AutoGen::Known(3), "tiga"),
            sample_konsep(AutoGen::Known(1), "satu"),
        ],
    };
    let m = old.modify_into(&new).unwrap();
    assert_eq!(m.konseps.modified.len(), 2);
    assert_eq!(m.konseps.modified[0].id, AutoGen::Known(1));
    assert_eq!(m.konseps.modified[1].id, AutoGen::Known(3));
}
