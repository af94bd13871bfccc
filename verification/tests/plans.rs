//! Scenarios for the submission plans: the ordered storage operations
//! that a modification turns into.

use kamus::changes::AttachmentMod;
use kamus::errors::DiffError;
use kamus::interface::{AttachmentItemMod, Item, ItemMod, SubmitMod};
use kamus::items::cakupan::Cakupan;
use kamus::items::kata_asing::KataAsing;
use kamus::items::konsep::{Konsep, KonsepMod};
use kamus::items::lemma::{Lemma, LemmaMod};
use kamus::metatype::AutoGen;
use kamus::operations::DbOp;

#[test]
fn fresh_lemma_plan_is_one_insert() {
    let new = Lemma {
        id: AutoGen::Unknown,
        lemma: "x".to_string(),
        konseps: vec![],
    };
    let plan = LemmaMod::from_item(&new).submit_mod().unwrap();
    assert_eq!(
        plan,
        vec![DbOp::InsertLemma {
            id: AutoGen::Unknown,
            nama: "x".to_string()
        }]
    );
}

#[test]
fn attaching_one_concept_writes_no_lemma_scalar() {
    let old = Lemma {
        id: AutoGen::Known(1),
        lemma: "x".to_string(),
        konseps: vec![],
    };
    let new = Lemma {
        id: AutoGen::Known(1),
        lemma: "x".to_string(),
        konseps: vec![Konsep {
            id: AutoGen::Unknown,
            keterangan: "y".to_string(),
            golongan_kata: "noun".to_string(),
            cakupans: vec![],
            kata_asing: vec![],
        }],
    };
    let m = old.modify_into(&new).unwrap();
    let plan = m.submit_mod().unwrap();
    assert_eq!(
        plan,
        vec![
            DbOp::InsertLemma {
                id: AutoGen::Known(1),
                nama: "x".to_string()
            },
            DbOp::InsertKonsep {
                keterangan: "y".to_string(),
                lemma: "x".to_string(),
                golongan_kata: "noun".to_string()
            },
        ]
    );
}

#[test]
fn concept_attachment_cascades_into_tags() {
    let m = KonsepMod::from_item(&Konsep {
        id: AutoGen::Unknown,
        keterangan: "y".to_string(),
        golongan_kata: "noun".to_string(),
        cakupans: vec![Cakupan::new("Umum".to_string())],
        kata_asing: vec![KataAsing {
            nama: "general".to_string(),
            bahasa: "english".to_string(),
        }],
    });
    let parent = (AutoGen::Known(1), "x".to_string());
    let plan = m.submit_attachment_to(&parent).unwrap();
    assert_eq!(
        plan,
        vec![
            DbOp::InsertKonsep {
                keterangan: "y".to_string(),
                lemma: "x".to_string(),
                golongan_kata: "noun".to_string()
            },
            DbOp::AttachCakupan {
                nama: "Umum".to_string(),
                keterangan: "y".to_string()
            },
            DbOp::AttachKataAsing {
                nama: "general".to_string(),
                bahasa: "english".to_string(),
                keterangan: "y".to_string()
            },
        ]
    );
}

#[test]
fn detaching_a_tag_plans_one_detach() {
    let old = Konsep {
        id: AutoGen::Known(1),
        keterangan: "y".to_string(),
        golongan_kata: "noun".to_string(),
        cakupans: vec![
            Cakupan::new("Umum".to_string()),
            Cakupan::new("Khusus".to_string()),
        ],
        kata_asing: vec![],
    };
    let new = Konsep {
        id: AutoGen::Known(1),
        keterangan: "y".to_string(),
        golongan_kata: "noun".to_string(),
        cakupans: vec![Cakupan::new("Umum".to_string())],
        kata_asing: vec![],
    };
    let m = old.modify_into(&new).unwrap();
    let parent = (AutoGen::Known(1), "x".to_string());
    let plan = m.submit_modification_with(&parent).unwrap();
    assert_eq!(
        plan,
        vec![
            DbOp::UpdateKonsep {
                keterangan: "y".to_string(),
                golongan_kata: "noun".to_string(),
                id: AutoGen::Known(1),
                lemma_id: AutoGen::Known(1)
            },
            DbOp::DetachCakupan {
                nama: "Khusus".to_string(),
                keterangan: "y".to_string()
            },
        ]
    );
}

#[test]
fn modifying_a_tag_in_place_is_unsupported() {
    let am: AttachmentMod<Cakupan> = AttachmentMod {
        attached: vec![],
        detached: vec![],
        modified: vec![Cakupan::new("Umum".to_string())],
    };
    let parent = "y".to_string();
    assert_eq!(
        am.submit_changes_with(&parent),
        Err(DiffError::UnsupportedModification)
    );
}

#[test]
fn phases_stay_in_attach_detach_modify_order() {
    let am: AttachmentMod<Cakupan> = AttachmentMod {
        attached: vec![Cakupan::new("baru".to_string())],
        detached: vec![Cakupan::new("lama".to_string())],
        modified: vec![],
    };
    let parent = "y".to_string();
    let plan = am.submit_changes_with(&parent).unwrap();
    assert_eq!(
        plan,
        vec![
            DbOp::AttachCakupan {
                nama: "baru".to_string(),
                keterangan: "y".to_string()
            },
            DbOp::DetachCakupan {
                nama: "lama".to_string(),
                keterangan: "y".to_string()
            },
        ]
    );
}

#[test]
fn full_submission_inserts_entry_then_children() {
    let l = Lemma {
        id: AutoGen::Unknown,
        lemma: "x".to_string(),
        konseps: vec![Konsep {
            id: AutoGen::Unknown,
            keterangan: "y".to_string(),
            golongan_kata: "noun".to_string(),
            cakupans: vec![Cakupan::new("Umum".to_string())],
            kata_asing: vec![],
        }],
    };
    let plan = l.submit_full().unwrap();
    assert_eq!(
        plan,
        vec![
            DbOp::InsertLemma {
                id: AutoGen::Unknown,
                nama: "x".to_string()
            },
            DbOp::InsertKonsep {
                keterangan: "y".to_string(),
                lemma: "x".to_string(),
                golongan_kata: "noun".to_string()
            },
            DbOp::AttachCakupan {
                nama: "Umum".to_string(),
                keterangan: "y".to_string()
            },
        ]
    );
}

#[test]
fn partial_plans_touch_the_entry_row_alone() {
    let l = Lemma {
        id: AutoGen::Known(9),
        lemma: "x".to_string(),
        konseps: vec![],
    };
    assert_eq!(
        l.submit_partial(),
        vec![DbOp::InsertLemma {
            id: AutoGen::Known(9),
            nama: "x".to_string()
        }]
    );
    assert_eq!(
        l.submit_partial_removal(),
        vec![DbOp::DeleteLemma {
            id: AutoGen::Known(9),
            nama: "x".to_string()
        }]
    );
}

#[test]
fn foreign_word_rows_insert_idempotently() {
    let k = KataAsing {
        nama: "general".to_string(),
        bahasa: "english".to_string(),
    };
    assert_eq!(
        k.submit_full(),
        vec![DbOp::InsertKataAsing {
            nama: "general".to_string(),
            bahasa: "english".to_string()
        }]
    );
    assert_eq!(k.submit_partial(), k.submit_full());
}

#[test]
fn concept_detachment_deletes_by_identifier() {
    let m = KonsepMod::from_item(&Konsep {
        id: AutoGen::Known(5),
        keterangan: "y".to_string(),
        golongan_kata: "noun".to_string(),
        cakupans: vec![],
        kata_asing: vec![],
    });
    let parent = (AutoGen::Known(1), "x".to_string());
    assert_eq!(
        m.submit_detachment_from(&parent).unwrap(),
        vec![DbOp::DeleteKonsep {
            id: AutoGen::Known(5),
            lemma_id: AutoGen::Known(1)
        }]
    );
}
