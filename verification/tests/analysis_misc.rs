use titan_engine::optimize::dedup::{DedupAnalyzer, PartitionInfo};
use titan_engine::fingerprint::hash::{LogicHash, TitanHasher};
use titan_engine::fingerprint::normalize::{remove_block_comments, split_whitespace, Normalizer};
use titan_engine::fingerprint::template::TemplateNames;
use titan_engine::macros::MacroExpander;
use titan_engine::fingerprint::config_block::remove_config_blocks;
use titan_engine::intern::Interner;

fn part(key: &str, checksum: u64, rows: u64) -> PartitionInfo {
    PartitionInfo { key: key.to_string(), checksum, row_count: rows }
}

#[test]
fn dedup_counts_duplicates() {
    let per_table = vec![
        ("orders".to_string(), vec![part("p=1", 1234, 1000), part("p=1_v2", 1234, 1000), part("p=2", 99, 10)]),
        ("orders_copy".to_string(), vec![part("p=1", 1234, 1000), part("p=2", 99, 10)]),
        ("users".to_string(), vec![part("p=9", 7, 5)]),
    ];
    let s = DedupAnalyzer::compute_stats(&per_table);
    assert_eq!(s.total_partitions, 6);
    assert_eq!(s.unique_partitions, 3);
    assert_eq!(s.duplicate_partitions, 3);
    assert_eq!(s.total_rows, 3025);
    assert_eq!(s.duplicate_rows, 2010);
    assert_eq!(s.top_dedup_pairs.len(), 1);
    let p = &s.top_dedup_pairs[0];
    assert_eq!(p.table_a, "orders");
    assert_eq!(p.table_b, "orders_copy");
    assert_eq!(p.shared_partitions, 2);
    assert_eq!(p.shared_rows, 1010);
}

#[test]
fn dedup_of_nothing() {
    let s = DedupAnalyzer::compute_stats(&vec![]);
    assert_eq!(s.total_partitions, 0);
    assert_eq!(s.total_rows, 0);
    assert!(s.top_dedup_pairs.is_empty());
}

#[test]
fn dedup_keeps_ten_pairs_most_shared_first() {
    let mut per_table = Vec::new();
    for t in 0..6u64 {
        let mut parts = vec![part("a", 1, 1)];
        if t < 3 {
            parts.push(part("b", 2, 2));
        }
        per_table.push((format!("t{t}"), parts));
    }
    let s = DedupAnalyzer::compute_stats(&per_table);
    assert_eq!(s.top_dedup_pairs.len(), 10);
    for w in s.top_dedup_pairs.windows(2) {
        assert!(w[0].shared_partitions >= w[1].shared_partitions);
    }
    for p in &s.top_dedup_pairs[..3] {
        assert_eq!(p.shared_partitions, 2);
        assert!(p.table_a < p.table_b);
    }
    assert_eq!(s.top_dedup_pairs[3].shared_partitions, 1);
}

#[test]
fn logic_hash_matches_blake3() {
    let h = TitanHasher::calculate("SELECT 1", "{}", &vec![LogicHash::new("bbb".to_string()), LogicHash::new("aaa".to_string())], false);
    let expected = blake3::hash(b"SELECT 1{}initialaaabbb").to_hex().to_string();
    assert_eq!(h.as_str(), expected);
    assert_eq!(h.as_str().len(), 64);
}

#[test]
fn logic_hash_ignores_parent_order() {
    let a = LogicHash::new("a1".to_string());
    let b = LogicHash::new("b2".to_string());
    let h1 = TitanHasher::calculate("q", "c", &vec![a.clone(), b.clone()], true);
    let h2 = TitanHasher::calculate("q", "c", &vec![b, a], true);
    assert_eq!(h1, h2);
    let h3 = TitanHasher::calculate("q", "c", &vec![], false);
    assert_ne!(h1, h3);
}

#[test]
fn hasher_incremental_updates() {
    let mut h = TitanHasher::new();
    h.update("ab");
    h.update("c");
    assert_eq!(h.finalize().to_string(), blake3::hash(b"abc").to_hex().to_string());
}

#[test]
fn normalization_text() {
    assert_eq!(remove_block_comments("SELECT /* hi */ 1"), "SELECT  1");
    assert_eq!(remove_block_comments("a /* open\n */ b"), "a /* open\n */ b");
    assert_eq!(remove_block_comments("/**/x/*/"), "x/*/");
    assert_eq!(split_whitespace("  a \t b\n c  "), vec!["a".to_string(), "b".to_string(), "c".to_string()]);
    assert!(split_whitespace(" \u{a0} ").is_empty());
    assert_eq!(Normalizer::canonical_text("SELECT  a,\n  b /* note */ FROM t ").as_str(), "SELECT a, b FROM t");
}

#[test]
fn template_names() {
    assert_eq!(TemplateNames::ref_name(Some("dev"), "orders"), "dev_orders");
    assert_eq!(TemplateNames::ref_name(Some(""), "orders"), "orders");
    assert_eq!(TemplateNames::ref_name(None, "orders"), "orders");
    assert_eq!(TemplateNames::source_name("raw", "events"), "events");
}

#[test]
fn macro_placeholders() {
    let sql = "SELECT * FROM ${ref('orders')} WHERE date > '2023-01-01'";
    assert_eq!(MacroExpander::placeholders(sql), vec!["ref('orders')".to_string()]);
    assert_eq!(
        MacroExpander::splice(sql, &vec!["orders".to_string()]),
        "SELECT * FROM orders WHERE date > '2023-01-01'"
    );
}

#[test]
fn macro_placeholder_edges() {
    assert!(MacroExpander::placeholders("${} $ { x } ${unclosed").is_empty());
    assert_eq!(MacroExpander::placeholders("${a}${b}x${c}"), vec!["a".to_string(), "b".to_string(), "c".to_string()]);
    assert_eq!(MacroExpander::splice("${a}${b}x${c}", &vec!["1".to_string(), "2".to_string(), "3".to_string()]), "12x3");
    assert_eq!(MacroExpander::placeholders("${${x}}"), vec!["${x".to_string()]);
}

#[test]
fn config_blocks_are_removed() {
    let f = remove_config_blocks;
    assert_eq!(f("{{ config(materialized='table') }}\nSELECT 1"), "\nSELECT 1");
    assert_eq!(f("{{config(a=(1))}}SELECT 2"), "SELECT 2");
    assert_eq!(f("{{ config(\n  x = 1\n) }}SELECT 3"), "SELECT 3");
    assert_eq!(f("{{ other() }} SELECT 4"), "{{ other() }} SELECT 4");
    assert_eq!(f("{{ config(x) SELECT 5"), "{{ config(x) SELECT 5");
}

#[test]
fn interner_gives_strings_back() {
    let mut i = Interner::new();
    let a = i.intern("orders");
    let b = i.intern("users");
    let a2 = i.intern("orders");
    assert_eq!(a, a2);
    assert_ne!(a, b);
    assert_eq!(i.resolve(a), "orders");
    assert_eq!(i.resolve(b), "users");
}
