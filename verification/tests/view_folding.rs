//! Scenarios for folding flat query rows into nested entity trees.

use kamus::interface::{FromView, IntoViewMap};
use kamus::items::cakupan::Cakupan;
use kamus::items::kata_asing::KataAsing;
use kamus::items::lemma::Lemma;
use kamus::metatype::AutoGen;
use kamus::views::LemmaWithKonsepView;

fn row(
    l_id: i64,
    lemma: &str,
    k_id: i64,
    konsep: Option<&str>,
    cakupan: Option<&str>,
    kata: Option<(&str, &str)>,
) -> LemmaWithKonsepView {
    LemmaWithKonsepView {
        l_id,
        lemma: lemma.to_string(),
        k_id,
        konsep: konsep.map(|s| s.to_string()),
        golongan_kata: konsep.map(|_| "kata nama".to_string()),
        cakupan: cakupan.map(|s| s.to_string()),
        kata_asing: kata.map(|(n, _)| n.to_string()),
        bahasa_asing: kata.map(|(_, b)| b.to_string()),
    }
}

#[test]
fn rows_fold_into_one_entry() {
    let rows = vec![
        row(
            1,
            "cakera tokokan",
            1,
            Some("gas-gas dan debu"),
            Some("Astrofizik"),
            None,
        ),
        row(
            1,
            "cakera tokokan",
            1,
            Some("gas-gas dan debu"),
            Some("Teori Relativiti"),
            None,
        ),
        row(
            1,
            "cakera tokokan",
            1,
            Some("gas-gas dan debu"),
            None,
            Some(("accretion disk", "english")),
        ),
    ];
    let data = Lemma::from_views(&rows);
    assert_eq!(data.len(), 1);
    assert_eq!(data[0].id, AutoGen::Known(1));
    assert_eq!(data[0].lemma, "cakera tokokan".to_string());
    assert_eq!(data[0].konseps.len(), 1);
    let k = &data[0].konseps[0];
    assert_eq!(k.id, AutoGen::Known(1));
    assert_eq!(k.keterangan, "gas-gas dan debu".to_string());
    assert_eq!(
        k.cakupans,
        vec![
            Cakupan::new("Astrofizik".to_string()),
            Cakupan::new("Teori Relativiti".to_string()),
        ]
    );
    assert_eq!(
        k.kata_asing,
        vec![KataAsing {
            nama: "accretion disk".to_string(),
            bahasa: "english".to_string()
        }]
    );
}

#[test]
fn entries_keep_first_occurrence_order() {
    let rows = vec![
        row(2, "beta", 3, Some("kedua"), None, None),
        row(1, "alfa", 4, Some("pertama"), None, None),
        row(2, "beta", 3, Some("kedua"), Some("Umum"), None),
    ];
    let data = Lemma::from_views(&rows);
    assert_eq!(data.len(), 2);
    assert_eq!(data[0].lemma, "beta".to_string());
    assert_eq!(data[1].lemma, "alfa".to_string());
    assert_eq!(
        data[0].konseps[0].cakupans,
        vec![Cakupan::new("Umum".to_string())]
    );
}

#[test]
fn conceptless_rows_yield_entries_without_concepts() {
    let rows = vec![row(1, "kosong", 0, None, None, None)];
    let data = Lemma::from_views(&rows);
    assert_eq!(data.len(), 1);
    assert!(data[0].konseps.is_empty());
}

#[test]
fn duplicate_tag_values_collapse() {
    let rows = vec![
        row(1, "a", 1, Some("k"), Some("Umum"), None),
        row(1, "a", 1, Some("k"), Some("Umum"), None),
    ];
    let tags = Cakupan::from_views(&rows);
    assert_eq!(tags, vec![Cakupan::new("Umum".to_string())]);
}

#[test]
fn grouping_splits_by_both_keys() {
    let rows = vec![
        row(1, "a", 1, Some("k1"), None, None),
        row(1, "a", 2, Some("k2"), None, None),
        row(2, "b", 3, Some("k3"), None, None),
    ];
    let grouped = rows.into_viewmap();
    assert_eq!(grouped.len(), 2);
    assert_eq!(grouped[0].0, (1, "a".to_string()));
    assert_eq!(grouped[0].1.len(), 2);
    assert_eq!(grouped[1].0, (2, "b".to_string()));
    assert_eq!(grouped[1].1.len(), 1);
}
