use budoux_rust_wrapper::text::codepoints;
use budoux_rust_wrapper::{load_default_japanese_parser, FeatureTable, Model, Parser};

fn table(entries: &[(&str, i32)]) -> FeatureTable {
    let mut table = FeatureTable::new();
    for (key, weight) in entries {
        table.insert(key.to_string(), *weight);
    }
    table
}

fn empty_model() -> Model {
    Model {
        uw1: FeatureTable::new(),
        uw2: FeatureTable::new(),
        uw3: FeatureTable::new(),
        uw4: FeatureTable::new(),
        uw5: FeatureTable::new(),
        uw6: FeatureTable::new(),
        bw1: FeatureTable::new(),
        bw2: FeatureTable::new(),
        bw3: FeatureTable::new(),
        tw1: FeatureTable::new(),
        tw2: FeatureTable::new(),
        tw3: FeatureTable::new(),
        tw4: FeatureTable::new(),
    }
}

/// A small model for Japanese text, with a handful of weights set by hand: a
/// break is favoured after the particle "は" and before "天", and disfavoured
/// inside "です" and "今日は".
fn particle_model() -> Model {
    let mut model = empty_model();
    model.uw3 = table(&[("は", 30), ("で", -2)]);
    model.uw4 = table(&[("天", 12)]);
    model.bw2 = table(&[("です", -4), ("日は", -6)]);
    model.tw2 = table(&[("今日は", -8)]);
    model
}

fn starts_of(chunks: &[String]) -> Vec<usize> {
    let mut starts = Vec::new();
    let mut at = 0;
    for chunk in chunks {
        starts.push(at);
        at += chunk.chars().count();
    }
    starts
}

const SAMPLES: [&str; 8] = [
    "",
    "a",
    "今",
    "今日は天気です。",
    "私は遅刻魔で、待ち合わせにいつも遅刻してしまいます。",
    "はははは",
    "abc はdef",
    "天は天は天",
];

#[test]
fn test_japanese_parser() {
    let model = particle_model();
    let parser = load_default_japanese_parser(&model);
    let result = parser.parse("今日は天気です。");
    assert_eq!(result, vec!["今日は", "天気です。"]);
}

#[test]
fn test_empty_string() {
    let model = particle_model();
    let parser = load_default_japanese_parser(&model);
    let result = parser.parse("");
    assert!(result.is_empty());
}

#[test]
fn default_parser_keeps_a_copy_of_the_model() {
    let mut model = particle_model();
    let parser = load_default_japanese_parser(&model);
    model.uw3.insert("は".to_string(), -30);
    assert_eq!(model.total_weight(), -38);
    assert_eq!(parser.model().total_weight(), 22);
    assert_eq!(parser.parse("今日は天気です。"), vec!["今日は", "天気です。"]);
}

#[test]
fn empty_text_has_no_chunks_under_any_model() {
    assert!(Parser::new(empty_model()).parse("").is_empty());
    assert!(Parser::new(particle_model()).parse("").is_empty());
}

#[test]
fn single_codepoint_is_its_own_chunk() {
    let parser = Parser::new(particle_model());
    for text in ["a", "は", "天", "。", "𠮷"] {
        assert_eq!(parser.parse(text), vec![text.to_string()]);
    }
}

#[test]
fn chunks_concatenate_to_the_input() {
    let parser = Parser::new(particle_model());
    for text in SAMPLES {
        let chunks = parser.parse(text);
        assert_eq!(chunks.concat(), text);
    }
}

#[test]
fn no_chunk_is_empty() {
    let parser = Parser::new(particle_model());
    for text in SAMPLES {
        for chunk in parser.parse(text) {
            assert!(!chunk.is_empty());
        }
    }
}

#[test]
fn empty_model_scores_zero_and_keeps_the_text_whole() {
    let model = empty_model();
    assert_eq!(model.total_weight(), 0);
    let parser = Parser::new(model);
    for text in SAMPLES {
        let chars = codepoints(text);
        for i in 0..chars.len() {
            assert_eq!(parser.doubled_score(&chars, i), 0);
        }
        if !text.is_empty() {
            assert_eq!(parser.parse(text), vec![text.to_string()]);
        }
    }
}

#[test]
fn same_input_gives_same_chunks() {
    let parser = Parser::new(particle_model());
    let other = Parser::new(particle_model());
    for text in SAMPLES {
        let first = parser.parse(text);
        let second = parser.parse(text);
        let third = other.parse(text);
        assert_eq!(first, second);
        assert_eq!(first, third);
        for (a, b) in first.iter().zip(second.iter()) {
            assert_eq!(a.as_bytes(), b.as_bytes());
        }
    }
}

#[test]
fn chunks_start_exactly_at_positive_scores() {
    let parser = Parser::new(particle_model());
    for text in SAMPLES {
        let chars = codepoints(text);
        let starts = starts_of(&parser.parse(text));
        for i in 1..chars.len() {
            let positive = parser.doubled_score(&chars, i) > 0;
            assert_eq!(starts.contains(&i), positive);
        }
        if !chars.is_empty() {
            assert_eq!(starts[0], 0);
        }
    }
}

#[test]
fn particle_model_scores() {
    let model = particle_model();
    // Sum of all weights: 30 - 2 + 12 - 4 - 6 - 8.
    assert_eq!(model.total_weight(), 22);
    let parser = Parser::new(model);
    let chars = codepoints("今日は天気です。");
    // Before "日": nothing matches, so twice the score is the negated sum.
    assert_eq!(parser.doubled_score(&chars, 1), -22);
    // Before "は": "日は" and "今日は" match.
    assert_eq!(parser.doubled_score(&chars, 2), 2 * (-6 - 8) - 22);
    // Before "天": "は" before it and "天" at it match.
    assert_eq!(parser.doubled_score(&chars, 3), 2 * (30 + 12) - 22);
    // Before "す": "で" before it and "です" around it match.
    assert_eq!(parser.doubled_score(&chars, 6), 2 * (-2 - 4) - 22);
}

#[test]
fn negative_total_breaks_everywhere_without_evidence() {
    // With a negative sum the base score is positive, so a position where
    // nothing matches breaks.
    let mut model = empty_model();
    model.uw1 = table(&[("z", -2)]);
    let parser = Parser::new(model);
    assert_eq!(parser.parse("abc"), vec!["a", "b", "c"]);
}

#[test]
fn score_of_zero_does_not_break() {
    let mut model = empty_model();
    model.uw4 = table(&[("b", 1)]);
    model.uw1 = table(&[("x", 1)]);
    let parser = Parser::new(model);
    assert_eq!(parser.doubled_score(&codepoints("ab"), 1), 0);
    assert_eq!(parser.parse("ab"), vec!["ab"]);
}

#[test]
fn smallest_positive_score_breaks() {
    let mut model = empty_model();
    model.uw4 = table(&[("b", 2)]);
    model.uw1 = table(&[("x", 1)]);
    let parser = Parser::new(model);
    assert_eq!(parser.doubled_score(&codepoints("ab"), 1), 1);
    assert_eq!(parser.parse("ab"), vec!["a", "b"]);
}

#[test]
fn half_weight_bias_is_exact() {
    // An odd sum: the base score is -1.5, and a weight of 1 leaves -0.5.
    let mut model = empty_model();
    model.uw4 = table(&[("b", 1), ("c", 2)]);
    assert_eq!(model.total_weight(), 3);
    let parser = Parser::new(model);
    assert_eq!(parser.doubled_score(&codepoints("abc"), 1), -1);
    assert_eq!(parser.doubled_score(&codepoints("abc"), 2), 1);
    assert_eq!(parser.parse("abc"), vec!["ab", "c"]);
}

#[test]
fn cloned_parser_segments_alike() {
    let parser = Parser::new(particle_model());
    let copy = parser.clone();
    assert_eq!(copy.model().total_weight(), 22);
    for text in SAMPLES {
        assert_eq!(copy.parse(text), parser.parse(text));
    }
}

#[test]
fn third_and_later_chunks_are_cut_right() {
    let parser = Parser::new(particle_model());
    assert_eq!(parser.parse("天は天は天"), vec!["天は", "天は", "天"]);
    assert_eq!(parser.parse("はははは"), vec!["は", "は", "は", "は"]);
    assert_eq!(parser.parse("abc はdef"), vec!["abc は", "def"]);
}
