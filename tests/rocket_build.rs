use rocket::catalog::{part, query, PartType, Stage, PART_COUNT};
use rocket::chooser::{choose_part, Chooser, FirstChooser, NoEligiblePart, ThreadChooser};
use rocket::rocket::{BuildError, Rocket};

fn check_structure(rocket: &Rocket, height: usize) {
    let ids = rocket.sections();
    assert!(ids.iter().all(|&id| id < PART_COUNT));
    let total: usize = ids.iter().map(|&id| part(id).height).sum();
    assert_eq!(total, height);
    for pair in ids.windows(2) {
        assert_eq!(part(pair[1]).top_width, part(pair[0]).bottom_width);
    }
    let engines = ids.iter().filter(|&&id| part(id).type_ == PartType::ENGINE).count();
    assert_eq!(engines, 1);
    let tips = ids.iter().take_while(|&&id| part(id).type_ == PartType::TIP).count();
    let nose = part(ids[tips]);
    assert_eq!(nose.type_, PartType::BODY);
    assert_eq!(nose.top_width, 0);
    assert_ne!(nose.bottom_width, 0);
}

#[test]
fn random_rockets_have_exact_height_and_matching_joints() {
    for height in 3..40 {
        for _ in 0..20 {
            let rocket = Rocket::new(height).unwrap();
            assert_eq!(rocket.max_height(), height);
            check_structure(&rocket, height);
        }
    }
}

#[test]
fn fixed_ratio_rockets_are_valid_for_every_ratio() {
    for ratio in [0u64, 200, 300, 399, 1000, u64::MAX] {
        for height in 3..30 {
            let rocket = Rocket::build_with(height, ratio, &mut ThreadChooser).unwrap();
            check_structure(&rocket, height);
        }
    }
}

#[test]
fn minimum_height_succeeds() {
    let rocket = Rocket::new(3).unwrap();
    check_structure(&rocket, 3);
    let rocket = Rocket::build_with(3, 300, &mut FirstChooser).unwrap();
    assert_eq!(rocket.sections(), vec![0, 2, 17]);
    assert_eq!(rocket.render(), " │\n/'\\\n'─'\n");
}

#[test]
fn too_short_heights_are_rejected() {
    for height in 0..3 {
        assert_eq!(Rocket::new(height).err(), Some(BuildError::Configuration));
        assert_eq!(
            Rocket::build_with(height, 300, &mut FirstChooser).err(),
            Some(BuildError::Configuration)
        );
    }
}

#[test]
fn first_choice_golden_rocket() {
    let rocket = Rocket::build_with(10, 300, &mut FirstChooser).unwrap();
    assert_eq!(rocket.sections(), vec![0, 2, 5, 8, 5, 8, 5, 8, 5, 18]);
    let expected = "  │\n /'\\\n/   \\\n\\   /\n/   \\\n\\   /\n/   \\\n\\   /\n/   \\\n \\_/\n";
    assert_eq!(rocket.render(), expected);
}

#[test]
fn first_choice_builds_repeat_exactly() {
    for height in 3..30 {
        let a = Rocket::build_with(height, 300, &mut FirstChooser).unwrap();
        let b = Rocket::build_with(height, 300, &mut FirstChooser).unwrap();
        assert_eq!(a.sections(), b.sections());
        assert_eq!(a.render(), b.render());
    }
}

#[test]
fn rendering_twice_gives_the_same_text() {
    let rocket = Rocket::new(25).unwrap();
    assert_eq!(rocket.render(), rocket.render());
}

#[test]
fn rendered_rows_fit_within_widest_row() {
    for height in 3..30 {
        let rocket = Rocket::new(height).unwrap();
        let text = rocket.render();
        assert!(text.ends_with('\n'));
        let widest = rocket
            .sections()
            .iter()
            .flat_map(|&id| part(id).shape.lines().map(|l| l.chars().count()).collect::<Vec<_>>())
            .max()
            .unwrap();
        let mut rows = 0;
        for line in text.lines() {
            let printed = line.chars().count();
            let content = line.trim_start_matches(' ').chars().count();
            assert!(printed <= widest);
            assert_eq!(printed - content, (widest - content + 1) / 2);
            if widest - content <= 1 {
                assert_eq!(printed, widest);
            }
            rows += 1;
        }
        let expected_rows: usize = rocket.sections().iter().map(|&id| part(id).shape.lines().count()).sum();
        assert_eq!(rows, expected_rows);
    }
}

#[test]
fn weighted_choice_follows_weights() {
    let weights = vec![10usize, 1];
    let mut chooser = ThreadChooser;
    let trials = 10_000;
    let mut heavy = 0;
    for _ in 0..trials {
        let k = chooser.pick(&weights);
        assert!(k < 2);
        if k == 0 {
            heavy += 1;
        }
    }
    let freq = heavy as f64 / trials as f64;
    assert!((freq - 10.0 / 11.0).abs() < 0.02, "observed {}", freq);
}

#[test]
fn choose_part_rejects_empty_candidates() {
    let empty: Vec<usize> = Vec::new();
    assert_eq!(choose_part(&empty, &mut ThreadChooser), Err(NoEligiblePart));
    assert_eq!(choose_part(&vec![3, 7], &mut FirstChooser), Ok(3));
}

#[test]
fn query_lists_exactly_the_fitting_parts() {
    assert_eq!(query(Stage::Nose, 0, 10), vec![2, 3, 4, 6]);
    assert_eq!(query(Stage::Nose, 0, 1), vec![2, 3, 4]);
    assert_eq!(query(Stage::Body, 1, 5), vec![5, 7, 10, 11, 12]);
    assert_eq!(query(Stage::Body, 3, 1), vec![8, 9, 13, 14, 15]);
    assert_eq!(query(Stage::Engine, 3, 1), vec![18]);
    assert_eq!(query(Stage::Engine, 0, 5), Vec::<usize>::new());
    assert_eq!(query(Stage::Decoration, 0, 1), vec![0, 20, 21, 22]);
    assert_eq!(query(Stage::Decoration, 1, 1), vec![0, 19]);
    assert_eq!(query(Stage::Decoration, 3, 2), vec![0, 1]);
    assert_eq!(query(Stage::Body, 1, 0), Vec::<usize>::new());
}

#[test]
fn render_centres_a_known_sequence() {
    let ids = vec![1, 6, 16, 18, 19];
    let text = rocket::render::render_parts(&ids);
    let expected = "    │\n    ║\n   /'\\\n  /   \\\n /│ ^ │\\\n/_│ | │_\\\n   \\_/\n   ( )\n";
    assert_eq!(text, expected);
}
