//! Diffing scenarios for the attach/detach/modify engine.

use kamus::changes::{AttachmentMod, CompareAttachable, FieldMod};
use kamus::items::cakupan::Cakupan as CakupanItem;
use kamus::items::kata_asing::KataAsing as KataAsingItem;
use kamus::items::konsep::{Konsep as KonsepItem, KonsepMod};
use kamus::items::lemma::Lemma;
use kamus::metatype::AutoGen;

#[test]
fn test_diff_handling_detach_konsep() {
    let lemma_1 = Lemma {
        id: AutoGen::Known(1),
        lemma: "cubaan".to_string(),
        konseps: vec![
            KonsepItem {
                id: AutoGen::Known(1),
                keterangan: "cubaan simpan 1/2".to_string(),
                golongan_kata: "kata nama".to_string(),
                cakupans: vec![],
                kata_asing: vec![],
            },
            KonsepItem {
                id: AutoGen::Known(2),
                keterangan: "cubaan padam".to_string(),
                golongan_kata: "kata nama".to_string(),
                cakupans: vec![],
                kata_asing: vec![],
            },
            KonsepItem {
                id: AutoGen::Known(3),
                keterangan: "cubaan simpan 2/2".to_string(),
                golongan_kata: "kata nama".to_string(),
                cakupans: vec![],
                kata_asing: vec![],
            },
        ],
    };
    let lemma_2 = Lemma {
        id: AutoGen::Known(1),
        lemma: "cubaan".to_string(),
        konseps: vec![
            KonsepItem {
                id: AutoGen::Known(1),
                keterangan: "cubaan simpan 1/2".to_string(),
                golongan_kata: "kata nama".to_string(),
                cakupans: vec![],
                kata_asing: vec![],
            },
            KonsepItem {
                id: AutoGen::Known(3),
                keterangan: "cubaan simpan 2/2".to_string(),
                golongan_kata: "kata nama".to_string(),
                cakupans: vec![],
                kata_asing: vec![],
            },
        ],
    };
    let attachment_mod = lemma_1.compare_attachment(lemma_2.konseps).unwrap();
    assert_eq!(
        attachment_mod.detached,
        vec![KonsepMod {
            id: AutoGen::Known(2),
            keterangan: FieldMod::Fixed("cubaan padam".to_string()),
            golongan_kata: FieldMod::Fixed("kata nama".to_string()),
            cakupans: AttachmentMod::empty(),
            kata_asing: AttachmentMod::empty()
        }]
    );
    assert_eq!(
        attachment_mod.modified,
        vec![
            KonsepMod {
                id: AutoGen::Known(1),
                keterangan: FieldMod::Fixed("cubaan simpan 1/2".to_string()),
                golongan_kata: FieldMod::Fixed("kata nama".to_string()),
                cakupans: AttachmentMod::empty(),
                kata_asing: AttachmentMod::empty(),
            },
            KonsepMod {
                id: AutoGen::Known(3),
                keterangan: FieldMod::Fixed("cubaan simpan 2/2".to_string()),
                golongan_kata: FieldMod::Fixed("kata nama".to_string()),
                cakupans: AttachmentMod::empty(),
                kata_asing: AttachmentMod::empty(),
            },
        ]
    );
}

#[test]
fn test_compare_attachable() {
    let old = KonsepItem {
        id: AutoGen::Unknown,
        keterangan: String::new(),
        golongan_kata: String::new(),
        cakupans: vec![
            CakupanItem::new("a".to_string()),
            CakupanItem::new("b".to_string()),
            CakupanItem::new("c".to_string()),
        ],
        kata_asing: vec![KataAsingItem {
            nama: "new".to_string(),
            bahasa: "en".to_string(),
        }],
    };
    let changes_cakupan: AttachmentMod<CakupanItem> = old
        .compare_attachment(vec![
            CakupanItem::new("a".to_string()),
            CakupanItem::new("b".to_string()),
            CakupanItem::new("d".to_string()),
        ])
        .unwrap();
    assert_eq!(
        changes_cakupan,
        AttachmentMod {
            attached: vec![CakupanItem::new("d".to_string())],
            detached: vec![CakupanItem::new("c".to_string())],
            modified: vec![]
        }
    );
    let changes_kata_asing: AttachmentMod<KataAsingItem> =
        old.compare_attachment(vec![]).unwrap();
    assert_eq!(
        changes_kata_asing,
        AttachmentMod {
            attached: vec![],
            detached: vec![KataAsingItem {
                nama: "new".to_string(),
                bahasa: "en".to_string()
            }],
            modified: vec![]
        }
    )
}
