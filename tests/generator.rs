use gfa_gen::generate::{generate, generate_graph, random_dna_string, random_edge, random_sign};
use gfa_gen::model::{cycle_edge_at, validate, ConfigError, Edge, Graph, GraphSpec, Node, Sign};
use gfa_gen::random::{seed_or_random, RandomSource};
use gfa_gen::text::{push_decimal, push_edge_line, push_header, push_node_line, render, sign_to_byte};

fn spec(node_count: usize, edge_count: usize, ensure_strongly_connected: bool) -> GraphSpec {
    GraphSpec { node_count, edge_count, ensure_strongly_connected }
}

fn lines_of(s: &GraphSpec, seed: u64) -> Vec<String> {
    let text = generate(s, seed).expect("valid configuration");
    let text = String::from_utf8(text).expect("ASCII output");
    assert!(text.ends_with('\n'));
    text.lines().map(|l| l.to_string()).collect()
}

fn check_sequence(seq: &str) {
    assert!((5..=15).contains(&seq.len()), "bad length: {}", seq);
    assert!(seq.chars().all(|c| "ACGT".contains(c)), "bad symbol: {}", seq);
}

#[test]
fn three_node_cycle_with_seed_42() {
    let lines = lines_of(&spec(3, 3, true), 42);
    assert_eq!(lines.len(), 7);
    assert_eq!(lines[0], "H\tVN:Z:1.0");
    for (i, line) in lines[1..4].iter().enumerate() {
        let fields: Vec<&str> = line.split('\t').collect();
        assert_eq!(fields.len(), 3);
        assert_eq!(fields[0], "S");
        assert_eq!(fields[1], (i + 1).to_string());
        check_sequence(fields[2]);
    }
    assert_eq!(lines[4], "L\t1\t+\t2\t+\t0M");
    assert_eq!(lines[5], "L\t2\t+\t3\t+\t0M");
    assert_eq!(lines[6], "L\t3\t+\t1\t+\t0M");
}

#[test]
fn empty_graph_is_only_the_header() {
    let text = generate(&spec(0, 0, false), 1).unwrap();
    assert_eq!(text, b"H\tVN:Z:1.0\n".to_vec());
    let text = generate(&spec(0, 0, true), 1).unwrap();
    assert_eq!(text, b"H\tVN:Z:1.0\n".to_vec());
}

#[test]
fn too_few_edges_for_cycle_is_rejected() {
    assert_eq!(generate(&spec(2, 1, true), 42), Err(ConfigError::TooFewEdgesForCycle));
    assert_eq!(validate(&spec(2, 1, true)), Err(ConfigError::TooFewEdgesForCycle));
    let mut rng = RandomSource::from_seed(3);
    assert!(matches!(generate_graph(&spec(5, 0, true), &mut rng), Err(ConfigError::TooFewEdgesForCycle)));
}

#[test]
fn edges_without_nodes_are_rejected() {
    assert_eq!(generate(&spec(0, 3, false), 42), Err(ConfigError::EdgesWithoutNodes));
    assert_eq!(generate(&spec(0, 1, true), 42), Err(ConfigError::EdgesWithoutNodes));
    assert_eq!(validate(&spec(0, 1, false)), Err(ConfigError::EdgesWithoutNodes));
}

#[test]
fn valid_configurations_pass_validation() {
    assert_eq!(validate(&spec(0, 0, true)), Ok(()));
    assert_eq!(validate(&spec(3, 3, true)), Ok(()));
    assert_eq!(validate(&spec(3, 0, false)), Ok(()));
    assert_eq!(validate(&spec(1, 10, false)), Ok(()));
}

#[test]
fn error_messages_are_distinct() {
    assert_eq!(
        ConfigError::TooFewEdgesForCycle.message(),
        "Cannot ensure strong connectivity with fewer edges than nodes."
    );
    assert_ne!(ConfigError::EdgesWithoutNodes.message(), ConfigError::TooFewEdgesForCycle.message());
}

#[test]
fn same_seed_gives_same_bytes() {
    for s in [spec(10, 20, false), spec(7, 30, true), spec(1, 1, false)] {
        assert_eq!(generate(&s, 12345), generate(&s, 12345));
    }
}

#[test]
fn different_seeds_usually_differ() {
    let s = spec(20, 40, false);
    assert_ne!(generate(&s, 1), generate(&s, 2));
}

#[test]
fn line_counts_match_the_request() {
    for (s, seed) in [(spec(10, 25, false), 7), (spec(6, 9, true), 8), (spec(4, 4, true), 9), (spec(5, 0, false), 10)] {
        let lines = lines_of(&s, seed);
        assert_eq!(lines.iter().filter(|l| l.starts_with("H\t")).count(), 1);
        assert_eq!(lines.iter().filter(|l| l.starts_with("S\t")).count(), s.node_count);
        assert_eq!(lines.iter().filter(|l| l.starts_with("L\t")).count(), s.edge_count);
        assert_eq!(lines.len(), 1 + s.node_count + s.edge_count);
    }
}

#[test]
fn node_ids_are_ascending_and_dense() {
    let lines = lines_of(&spec(12, 0, false), 99);
    let ids: Vec<usize> = lines[1..].iter().map(|l| l.split('\t').nth(1).unwrap().parse().unwrap()).collect();
    assert_eq!(ids, (1..=12).collect::<Vec<usize>>());
}

#[test]
fn sequences_use_dna_alphabet_and_allowed_lengths() {
    let lines = lines_of(&spec(200, 0, false), 5);
    let mut lengths = std::collections::BTreeSet::new();
    for line in &lines[1..] {
        let seq = line.split('\t').nth(2).unwrap();
        check_sequence(seq);
        lengths.insert(seq.len());
    }
    assert!(lengths.len() > 1);
}

#[test]
fn cycle_precedes_random_edges() {
    let n = 6;
    let lines = lines_of(&spec(n, 15, true), 77);
    let edges: Vec<&String> = lines.iter().filter(|l| l.starts_with("L\t")).collect();
    assert_eq!(edges.len(), 15);
    for i in 1..=n {
        let next = if i == n { 1 } else { i + 1 };
        assert_eq!(*edges[i - 1], format!("L\t{}\t+\t{}\t+\t0M", i, next));
    }
}

#[test]
fn edge_fields_are_in_their_domains() {
    let n = 8;
    let lines = lines_of(&spec(n, 100, false), 2024);
    let mut signs = std::collections::BTreeSet::new();
    for line in lines.iter().filter(|l| l.starts_with("L\t")) {
        let f: Vec<&str> = line.split('\t').collect();
        assert_eq!(f.len(), 6);
        let from: usize = f[1].parse().unwrap();
        let to: usize = f[3].parse().unwrap();
        assert!((1..=n).contains(&from) && (1..=n).contains(&to));
        assert!(f[2] == "+" || f[2] == "-");
        assert!(f[4] == "+" || f[4] == "-");
        assert_eq!(f[5], "0M");
        signs.insert(f[2].to_string());
        signs.insert(f[4].to_string());
    }
    assert_eq!(signs.len(), 2);
}

#[test]
fn generated_graph_matches_its_text() {
    let s = spec(5, 9, true);
    let mut rng = RandomSource::from_seed(31);
    let g = generate_graph(&s, &mut rng).unwrap();
    assert_eq!(g.nodes.len(), 5);
    assert_eq!(g.edges.len(), 9);
    for (i, node) in g.nodes.iter().enumerate() {
        assert_eq!(node.id, i + 1);
    }
    assert_eq!(generate(&s, 31).unwrap(), render(&g));
}

#[test]
fn dna_strings_are_valid() {
    let mut rng = RandomSource::from_seed(0);
    let mut seen_lengths = std::collections::BTreeSet::new();
    for _ in 0..300 {
        let seq = random_dna_string(&mut rng);
        check_sequence(std::str::from_utf8(&seq).unwrap());
        seen_lengths.insert(seq.len());
    }
    assert_eq!(seen_lengths.len(), 11);
}

#[test]
fn random_edges_and_signs_stay_in_range() {
    let mut rng = RandomSource::from_seed(11);
    let mut plus = 0;
    for _ in 0..200 {
        if random_sign(&mut rng) == Sign::Plus {
            plus += 1;
        }
        let e = random_edge(&mut rng, 3);
        assert!((1..=3).contains(&e.from) && (1..=3).contains(&e.to));
    }
    assert!(plus > 0 && plus < 200);
    let e = random_edge(&mut rng, 1);
    assert_eq!((e.from, e.to), (1, 1));
}

#[test]
fn cycle_edges_close_the_loop() {
    assert_eq!(cycle_edge_at(0, 3), Edge { from: 1, from_sign: Sign::Plus, to: 2, to_sign: Sign::Plus });
    assert_eq!(cycle_edge_at(2, 3), Edge { from: 3, from_sign: Sign::Plus, to: 1, to_sign: Sign::Plus });
    assert_eq!(cycle_edge_at(0, 1), Edge { from: 1, from_sign: Sign::Plus, to: 1, to_sign: Sign::Plus });
}

#[test]
fn render_writes_exact_lines() {
    let g = Graph {
        nodes: vec![Node { id: 1, sequence: b"ACGTA".to_vec() }, Node { id: 2, sequence: b"TTTTTGG".to_vec() }],
        edges: vec![
            Edge { from: 2, from_sign: Sign::Minus, to: 1, to_sign: Sign::Plus },
            Edge { from: 1, from_sign: Sign::Plus, to: 1, to_sign: Sign::Minus },
        ],
    };
    let text = String::from_utf8(render(&g)).unwrap();
    assert_eq!(
        text,
        "H\tVN:Z:1.0\nS\t1\tACGTA\nS\t2\tTTTTTGG\nL\t2\t-\t1\t+\t0M\nL\t1\t+\t1\t-\t0M\n"
    );
}

#[test]
fn line_writers_append() {
    let mut out = b"x".to_vec();
    push_header(&mut out);
    assert_eq!(out, b"xH\tVN:Z:1.0\n".to_vec());
    let mut out = Vec::new();
    push_node_line(&mut out, &Node { id: 1234, sequence: b"CCCCC".to_vec() });
    assert_eq!(out, b"S\t1234\tCCCCC\n".to_vec());
    let mut out = Vec::new();
    push_edge_line(&mut out, &Edge { from: 10, from_sign: Sign::Plus, to: 907, to_sign: Sign::Minus });
    assert_eq!(out, b"L\t10\t+\t907\t-\t0M\n".to_vec());
}

#[test]
fn decimal_digits() {
    for n in [0usize, 7, 10, 99, 100, 4096, usize::MAX] {
        let mut out = Vec::new();
        push_decimal(&mut out, n);
        assert_eq!(out, n.to_string().into_bytes());
    }
    assert_eq!(sign_to_byte(Sign::Plus), b'+');
    assert_eq!(sign_to_byte(Sign::Minus), b'-');
}

#[test]
fn given_seed_is_kept() {
    assert_eq!(seed_or_random(Some(7)), 7);
    assert_eq!(seed_or_random(Some(u64::MAX)), u64::MAX);
    let _ = seed_or_random(None);
}

#[test]
fn graph_draws_follow_the_stated_order() {
    let mut whole = RandomSource::from_seed(5);
    let g = generate_graph(&spec(2, 4, true), &mut whole).unwrap();
    let mut by_hand = RandomSource::from_seed(5);
    let first = random_dna_string(&mut by_hand);
    let second = random_dna_string(&mut by_hand);
    let e1 = random_edge(&mut by_hand, 2);
    let e2 = random_edge(&mut by_hand, 2);
    assert_eq!(g.nodes[0].sequence, first);
    assert_eq!(g.nodes[1].sequence, second);
    assert_eq!(g.edges[2], e1);
    assert_eq!(g.edges[3], e2);
    assert_eq!(random_dna_string(&mut whole), random_dna_string(&mut by_hand));
}

#[test]
fn rejection_draws_nothing() {
    let mut rejected = RandomSource::from_seed(9);
    assert!(generate_graph(&spec(3, 2, true), &mut rejected).is_err());
    let mut fresh = RandomSource::from_seed(9);
    assert_eq!(random_dna_string(&mut rejected), random_dna_string(&mut fresh));
}
