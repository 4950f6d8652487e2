use roguelike::color::Color;
use roguelike::unit_type::{UnitType, UnitTypeLists, UnitTypeRaw};

fn record(name: &str, chance: u32) -> UnitTypeRaw {
    UnitTypeRaw {
        name: name.to_string(),
        glyph: 'm',
        color: [10, 20, 30],
        chance,
        is_blocking: true,
        max_hp: 8,
        defence: 1,
        attack: 2,
    }
}

fn catalog(chances: &[u32]) -> UnitTypeLists {
    let raw: Vec<UnitTypeRaw> =
        chances.iter().enumerate().map(|(i, c)| record(&format!("kind{}", i), *c)).collect();
    UnitTypeLists::from_raw(&raw).unwrap()
}

#[test]
fn kind_is_made_from_its_record() {
    let raw = UnitTypeRaw {
        name: "Orc".to_string(),
        glyph: 'o',
        color: [0, 160, 7],
        chance: 5,
        is_blocking: false,
        max_hp: 12,
        defence: 2,
        attack: 6,
    };
    let kind = UnitType::from(&raw);
    assert_eq!(
        kind,
        UnitType {
            name: "Orc".to_string(),
            glyph: 'o',
            color: Color::new(0, 160, 7),
            is_blocking: false,
            max_hp: 12,
            defence: 2,
            attack: 6,
        }
    );
}

#[test]
fn catalog_keeps_the_kinds_in_order() {
    let lists = catalog(&[1, 1, 2]);
    let names: Vec<&str> = lists.types.iter().map(|t| t.get_name()).collect();
    assert_eq!(names, vec!["kind0", "kind1", "kind2"]);
}

#[test]
fn empty_catalog_is_refused() {
    assert!(UnitTypeLists::from_raw(&vec![]).is_none());
}

#[test]
fn catalog_without_weight_is_refused() {
    assert!(UnitTypeLists::from_raw(&vec![record("a", 0), record("b", 0)]).is_none());
}

#[test]
fn catalog_whose_weights_do_not_fit_is_refused() {
    assert!(UnitTypeLists::from_raw(&vec![record("a", u32::MAX), record("b", 1)]).is_none());
    assert!(UnitTypeLists::from_raw(&vec![record("a", u32::MAX), record("b", 0)]).is_some());
    assert!(UnitTypeLists::from_raw(&vec![record("a", u32::MAX - 1), record("b", 1)]).is_some());
}

#[test]
fn draw_falls_on_the_first_entry_whose_running_weight_exceeds_it() {
    let lists = catalog(&[1, 1, 2]);
    assert_eq!(lists.pick(0), 0);
    assert_eq!(lists.pick(1), 1);
    assert_eq!(lists.pick(2), 2);
    assert_eq!(lists.pick(3), 2);
    let lists = catalog(&[5, 3]);
    let picks: Vec<usize> = (0..8).map(|s| lists.pick(s)).collect();
    assert_eq!(picks, vec![0, 0, 0, 0, 0, 1, 1, 1]);
}

#[test]
fn draw_passes_over_entries_without_weight() {
    let lists = catalog(&[0, 3, 0, 1]);
    let picks: Vec<usize> = (0..4).map(|s| lists.pick(s)).collect();
    assert_eq!(picks, vec![1, 1, 1, 3]);
}

#[test]
fn half_of_all_draws_fall_on_an_entry_with_half_the_weight() {
    let lists = catalog(&[1, 1, 2]);
    let mut rng = rand::thread_rng();
    let trials = 40_000;
    let mut counts = [0usize; 3];
    for _ in 0..trials {
        let kind = lists.get_random_type(&mut rng);
        let at = lists.types.iter().position(|t| t.get_name() == kind.get_name()).unwrap();
        counts[at] += 1;
    }
    let share = |n: usize| n as f64 / trials as f64;
    assert!((share(counts[2]) - 0.5).abs() < 0.03);
    assert!((share(counts[0]) - 0.25).abs() < 0.03);
    assert!((share(counts[1]) - 0.25).abs() < 0.03);
}

#[test]
fn entry_without_weight_is_never_drawn() {
    let lists = catalog(&[0, 2, 0]);
    let mut rng = rand::thread_rng();
    for _ in 0..2_000 {
        assert_eq!(lists.get_random_type(&mut rng).get_name(), "kind1");
    }
}
