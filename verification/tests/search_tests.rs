use weasel::error::SearchError;
use weasel::fitness::fitness;
use weasel::mutation::MutationRate;
use weasel::search::{run, run_generation, validate_target};
use weasel::selection::{select_parents, sort_by_score, Scored};

fn chars(s: &str) -> Vec<char> {
    s.chars().collect()
}

fn scored(score: u32, s: &str) -> Scored {
    Scored {
        score,
        sentence: chars(s),
    }
}

#[test]
fn sort_orders_by_ascending_score_and_keeps_everything() {
    let v = vec![
        scored(3, "CCC"),
        scored(1, "AAA"),
        scored(2, "BBB"),
        scored(1, "DDD"),
        scored(0, "EEE"),
    ];
    let r = sort_by_score(v);
    assert_eq!(r.len(), 5);
    let scores: Vec<u32> = r.iter().map(|s| s.score).collect();
    assert_eq!(scores, vec![0, 1, 1, 2, 3]);
    // both score-1 members survive, in some order
    let ones: Vec<String> = r
        .iter()
        .filter(|s| s.score == 1)
        .map(|s| s.sentence.iter().collect::<String>())
        .collect();
    assert!(ones.contains(&"AAA".to_string()));
    assert!(ones.contains(&"DDD".to_string()));
}

#[test]
fn selection_retains_the_lowest_fitness_children() {
    let v = vec![
        scored(9, "III"),
        scored(2, "BBB"),
        scored(7, "HHH"),
        scored(1, "AAA"),
        scored(5, "EEE"),
        scored(3, "CCC"),
    ];
    let sel = select_parents(v, 3);
    assert_eq!(sel.len(), 3);
    let scores: Vec<u32> = sel.iter().map(|s| s.score).collect();
    assert_eq!(scores, vec![1, 2, 3]);
}

#[test]
fn selection_with_few_children_keeps_them_all() {
    let v = vec![scored(4, "AA"), scored(2, "BB")];
    let sel = select_parents(v, 3);
    assert_eq!(sel.len(), 2);
    let scores: Vec<u32> = sel.iter().map(|s| s.score).collect();
    assert_eq!(scores, vec![2, 4]);
}

#[test]
fn selection_keeps_ties_among_the_lowest() {
    let v = vec![
        scored(1, "AAA"),
        scored(1, "BBB"),
        scored(1, "CCC"),
        scored(1, "DDD"),
        scored(2, "EEE"),
    ];
    let sel = select_parents(v, 3);
    assert_eq!(sel.len(), 3);
    for s in sel.iter() {
        assert_eq!(s.score, 1);
    }
}

#[test]
fn validate_accepts_alphabet_targets() {
    assert_eq!(validate_target(&chars("METHINKS IT IS LIKE A WEASEL")), Ok(()));
    assert_eq!(validate_target(&Vec::new()), Ok(()));
}

#[test]
fn validate_reports_first_bad_character() {
    assert_eq!(
        validate_target(&chars("cat")),
        Err(SearchError::InvalidCharacter('c'))
    );
    assert_eq!(
        validate_target(&chars("CAt!")),
        Err(SearchError::InvalidCharacter('t'))
    );
}

#[test]
fn generation_returns_sorted_truly_scored_parents() {
    let mut rng = rand::thread_rng();
    let target = chars("CAT");
    let parents = vec![chars("AAA"), chars("BBB"), chars("CCC")];
    let next = run_generation(
        &target,
        parents,
        MutationRate::new(5, 100),
        400,
        3,
        &mut rng,
    );
    assert_eq!(next.len(), 3);
    assert!(next[0].score <= next[1].score && next[1].score <= next[2].score);
    for s in next.iter() {
        assert_eq!(s.sentence.len(), 3);
        assert_eq!(s.score, fitness(&target, &s.sentence));
    }
}

#[test]
fn run_finds_short_target() {
    let mut rng = rand::thread_rng();
    let target = chars("CAT");
    let res = run(&target, MutationRate::new(5, 100), 400, 3, 100_000, &mut rng)
        .expect("a valid target must start a run");
    assert_eq!(res.best_fitness, 0);
    assert_eq!(res.best, target);
    let last = res.progress.last().expect("the trail is never empty");
    assert_eq!(last.sentence.iter().collect::<String>(), "CAT");
    assert!(last.generation <= res.generations);
}

#[test]
fn run_rejects_lowercase_target() {
    let mut rng = rand::thread_rng();
    let r = run(
        &chars("cat"),
        MutationRate::new(5, 100),
        400,
        3,
        100_000,
        &mut rng,
    );
    assert!(matches!(r, Err(SearchError::InvalidCharacter('c'))));
}

#[test]
fn run_on_empty_target_ends_before_any_generation() {
    let mut rng = rand::thread_rng();
    let res = run(
        &Vec::new(),
        MutationRate::new(5, 100),
        400,
        3,
        100_000,
        &mut rng,
    )
    .expect("the empty target is valid");
    assert_eq!(res.generations, 0);
    assert_eq!(res.best_fitness, 0);
    assert!(res.best.is_empty());
    assert_eq!(res.progress.len(), 1);
}

#[test]
fn population_generation_keeps_exactly_three_parents() {
    let mut rng = rand::thread_rng();
    let target = chars("WEASEL");
    let parents = vec![chars("AAAAAA"), chars("BBBBBB"), chars("CCCCCC")];
    let next = run_generation(
        &target,
        parents,
        MutationRate::new(5, 100),
        400,
        3,
        &mut rng,
    );
    assert_eq!(next.len(), 3);
    assert!(next[0].score <= next[1].score && next[1].score <= next[2].score);
}
