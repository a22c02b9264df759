use std::cell::Cell;

use css_in_rs::{
    Classes, EmptyTheme, Inner, Registration, StyleError, StyleGenerator, Theme, Updater,
};

#[derive(Clone, Debug, PartialEq)]
struct Palette {
    color: &'static str,
}

impl Theme for Palette {
    fn unchanged(&self, other: &Self) -> bool {
        self.color == other.color
    }

    fn fast_cmp(&self, other: &Self) -> bool {
        self.color == other.color
    }
}

/// A theme whose comparison never reports "unchanged".
#[derive(Clone, Debug, PartialEq)]
struct AlwaysNew {
    color: &'static str,
}

impl Theme for AlwaysNew {
    fn unchanged(&self, _other: &Self) -> bool {
        false
    }

    fn fast_cmp(&self, _other: &Self) -> bool {
        false
    }
}

fn two_rules(theme: &Palette, css: &mut String, counter: &mut u64) {
    let text = *counter;
    *counter += 1;
    let button = *counter;
    *counter += 1;
    css.push_str(&format!(".css-{} {{ color: {}; }}\n", text, theme.color));
    css.push_str(&format!(".css-{} {{ margin: 5px; }}\n", button));
}

fn one_rule(theme: &Palette, css: &mut String, counter: &mut u64) {
    let id = *counter;
    *counter += 1;
    css.push_str(&format!(".css-{} {{ border: 1px solid {}; }}\n", id, theme.color));
}

fn run_on_empty<T, G: StyleGenerator<T>>(g: &G, theme: &T, start: u64) -> (String, u64) {
    let mut css = String::new();
    let mut counter = start;
    g.generate(theme, &mut css, &mut counter);
    (css, counter)
}

enum Gen {
    Plain(fn(&Palette, &mut String, &mut u64)),
    /// Takes one identifier on its first run and two on every later one.
    Flaky(Cell<u64>),
    /// Moves the counter back.
    Rewinding,
}

impl StyleGenerator<Palette> for Gen {
    fn output(&self, theme: Palette, start: u64) -> (String, u64) {
        run_on_empty(self, &theme, start)
    }

    fn generate(&self, theme: &Palette, css: &mut String, counter: &mut u64) {
        match self {
            Gen::Plain(f) => f(theme, css, counter),
            Gen::Flaky(runs) => {
                let n = if runs.get() == 0 { 1 } else { 2 };
                runs.set(runs.get() + 1);
                css.push_str(&format!(".css-{} {{ color: {}; }}\n", *counter, theme.color));
                *counter += n;
            }
            Gen::Rewinding => {
                *counter = 0;
            }
        }
    }
}

struct Fixed;

impl StyleGenerator<AlwaysNew> for Fixed {
    fn output(&self, theme: AlwaysNew, start: u64) -> (String, u64) {
        run_on_empty(self, &theme, start)
    }

    fn generate(&self, theme: &AlwaysNew, css: &mut String, counter: &mut u64) {
        css.push_str(&format!(".css-{} {{ color: {}; }}\n", *counter, theme.color));
        *counter += 1;
    }
}

struct Plain;

impl StyleGenerator<EmptyTheme> for Plain {
    fn output(&self, theme: EmptyTheme, start: u64) -> (String, u64) {
        run_on_empty(self, &theme, start)
    }

    fn generate(&self, _theme: &EmptyTheme, css: &mut String, counter: &mut u64) {
        css.push_str(&format!(".css-{} {{ padding: 5px; }}\n", *counter));
        *counter += 1;
    }
}

struct MyClasses {
    red_text: String,
    button: String,
}

impl Classes for MyClasses {
    type Theme = Palette;

    fn generate(theme: &Palette, css: &mut String, counter: &mut u64) {
        two_rules(theme, css, counter)
    }

    fn new(start: u64) -> Self {
        MyClasses {
            red_text: format!("css-{}", start),
            button: format!("css-{}", start + 1),
        }
    }
}

const RED: Palette = Palette { color: "red" };
const BLUE: Palette = Palette { color: "blue" };

fn expected_two_rules(theme: &Palette, start: u64) -> String {
    let mut css = String::new();
    let mut counter = start;
    two_rules(theme, &mut css, &mut counter);
    css
}

#[test]
fn new_registry_is_empty() {
    let reg: Inner<Palette, Gen> = Inner::new(RED);
    assert_eq!(reg.stylesheet(), "");
    assert_eq!(reg.counter(), 0);
    assert!(!reg.is_poisoned());
    assert!(reg.updaters().is_empty());
    assert_eq!(reg.current_theme(), &RED);
}

#[test]
fn new_generator_runs_once_and_flushes() {
    let mut reg = Inner::new(RED);
    let r = reg.add_updater(1, Gen::Plain(two_rules));
    assert_eq!(r, Ok(Registration { start: 0, flushed: true }));
    assert_eq!(reg.stylesheet(), ".css-0 { color: red; }\n.css-1 { margin: 5px; }\n");
    assert_eq!(reg.counter(), 2);
    assert_eq!(reg.updaters().len(), 1);
    assert_eq!(reg.updaters()[0].start, 0);
    assert_eq!(reg.updaters()[0].stop, 2);
    assert_eq!(reg.updaters()[0].key, 1);
}

#[test]
fn registering_twice_is_idempotent() {
    let mut reg = Inner::new(RED);
    let first = reg.add_updater(7, Gen::Plain(two_rules)).unwrap();
    let text = reg.stylesheet().to_string();
    let second = reg.add_updater(7, Gen::Plain(two_rules)).unwrap();
    assert_eq!(second.start, first.start);
    assert!(first.flushed);
    assert!(!second.flushed);
    assert_eq!(reg.stylesheet(), text);
    assert_eq!(reg.counter(), 2);
    assert_eq!(reg.updaters().len(), 1);
}

#[test]
fn distinct_registrations_get_disjoint_ranges_in_order() {
    let mut reg = Inner::new(RED);
    let a = reg.add_updater(1, Gen::Plain(two_rules)).unwrap();
    let b = reg.add_updater(2, Gen::Plain(one_rule)).unwrap();
    let c = reg.add_updater(3, Gen::Plain(two_rules)).unwrap();
    assert_eq!((a.start, b.start, c.start), (0, 2, 3));
    let ranges: Vec<(u64, u64)> = reg.updaters().iter().map(|u| (u.start, u.stop)).collect();
    assert_eq!(ranges, vec![(0, 2), (2, 3), (3, 5)]);
    let want = format!(
        "{}{}{}",
        expected_two_rules(&RED, 0),
        ".css-2 { border: 1px solid red; }\n",
        expected_two_rules(&RED, 3)
    );
    assert_eq!(reg.stylesheet(), want);
    assert_eq!(reg.counter(), 5);
}

#[test]
fn changed_theme_rebuilds_every_generator() {
    let mut reg = Inner::new(RED);
    reg.add_updater(1, Gen::Plain(two_rules)).unwrap();
    reg.add_updater(2, Gen::Plain(one_rule)).unwrap();
    assert_eq!(reg.update_theme(BLUE), Ok(true));
    let want = format!("{}{}", expected_two_rules(&BLUE, 0), ".css-2 { border: 1px solid blue; }\n");
    assert_eq!(reg.stylesheet(), want);
    assert_eq!(reg.current_theme(), &BLUE);
    assert_eq!(reg.counter(), 3);
    assert_eq!(reg.update_theme(RED), Ok(true));
    assert_eq!(reg.update_theme(BLUE), Ok(true));
    assert_eq!(reg.stylesheet(), want);
}

#[test]
fn unchanged_theme_is_skipped() {
    let mut reg = Inner::new(RED);
    reg.add_updater(1, Gen::Plain(two_rules)).unwrap();
    let text = reg.stylesheet().to_string();
    assert_eq!(reg.update_theme(Palette { color: "red" }), Ok(false));
    assert_eq!(reg.stylesheet(), text);
    assert_eq!(reg.counter(), 2);
}

#[test]
fn apply_theme_follows_the_given_comparison() {
    let mut reg = Inner::new(RED);
    reg.add_updater(1, Gen::Plain(two_rules)).unwrap();
    assert_eq!(reg.apply_theme(BLUE, true), Ok(false));
    assert_eq!(reg.current_theme(), &RED);
    assert_eq!(reg.stylesheet(), expected_two_rules(&RED, 0));
    assert_eq!(reg.apply_theme(BLUE, false), Ok(true));
    assert_eq!(reg.current_theme(), &BLUE);
    assert_eq!(reg.stylesheet(), expected_two_rules(&BLUE, 0));
}

#[test]
fn theme_that_never_compares_equal_still_rebuilds_correctly() {
    let mut reg = Inner::new(AlwaysNew { color: "red" });
    reg.add_updater(1, Fixed).unwrap();
    assert_eq!(reg.update_theme(AlwaysNew { color: "red" }), Ok(true));
    assert_eq!(reg.stylesheet(), ".css-0 { color: red; }\n");
    assert_eq!(reg.update_theme(AlwaysNew { color: "green" }), Ok(true));
    assert_eq!(reg.stylesheet(), ".css-0 { color: green; }\n");
}

#[test]
fn empty_theme_is_always_unchanged() {
    assert!(EmptyTheme.fast_cmp(&EmptyTheme));
    let mut reg = Inner::new(EmptyTheme);
    assert_eq!(reg.add_updater(3, Plain), Ok(Registration { start: 0, flushed: true }));
    assert_eq!(reg.update_theme(EmptyTheme), Ok(false));
    assert_eq!(reg.stylesheet(), ".css-0 { padding: 5px; }\n");
}

#[test]
fn empty_registry_rebuild_is_empty() {
    let mut reg: Inner<Palette, Gen> = Inner::new(RED);
    assert_eq!(reg.update(), Ok(()));
    assert_eq!(reg.update_theme(BLUE), Ok(true));
    assert_eq!(reg.stylesheet(), "");
}

#[test]
fn nondeterministic_generator_poisons_the_registry() {
    let mut reg = Inner::new(RED);
    reg.add_updater(1, Gen::Plain(one_rule)).unwrap();
    let r = reg.add_updater(2, Gen::Flaky(Cell::new(0))).unwrap();
    assert_eq!(r, Registration { start: 1, flushed: true });
    assert_eq!(
        reg.update_theme(BLUE),
        Err(StyleError::CounterMismatch { start: 1, expected: 2, actual: 3 })
    );
    assert!(reg.is_poisoned());
    assert_eq!(reg.add_updater(3, Gen::Plain(two_rules)), Err(StyleError::Poisoned));
    assert_eq!(reg.update_theme(RED), Err(StyleError::Poisoned));
}

#[test]
fn generator_moving_the_counter_back_is_refused() {
    let mut reg = Inner::new(RED);
    reg.add_updater(1, Gen::Plain(two_rules)).unwrap();
    assert_eq!(
        reg.add_updater(2, Gen::Rewinding),
        Err(StyleError::CounterMovedBack { start: 2, actual: 0 })
    );
    assert!(reg.is_poisoned());
    assert_eq!(reg.stylesheet(), expected_two_rules(&RED, 0));
}

#[test]
fn updater_update_replays_from_its_start() {
    let u = Updater { updater: Gen::Plain(two_rules), key: 9, start: 5, stop: 7 };
    let mut css = String::from("/* head */\n");
    assert_eq!(u.update(&BLUE, &mut css), Ok(()));
    assert_eq!(css, format!("/* head */\n{}", expected_two_rules(&BLUE, 5)));

    let wrong = Updater { updater: Gen::Plain(two_rules), key: 9, start: 5, stop: 8 };
    let mut css = String::new();
    assert_eq!(
        wrong.update(&BLUE, &mut css),
        Err(StyleError::CounterMismatch { start: 5, expected: 8, actual: 7 })
    );
}

#[test]
fn classes_bundle_scenario() {
    let mut reg = Inner::new(Palette { color: "red" });
    let key = 1;
    let r = reg.add_updater(key, Gen::Plain(MyClasses::generate)).unwrap();
    let classes = MyClasses::new(r.start);
    assert_eq!(classes.red_text, "css-0");
    assert_eq!(classes.button, "css-1");
    assert_eq!(reg.stylesheet(), ".css-0 { color: red; }\n.css-1 { margin: 5px; }\n");

    let again = reg.add_updater(key, Gen::Plain(MyClasses::generate)).unwrap();
    let classes2 = MyClasses::new(again.start);
    assert_eq!(classes2.red_text, "css-0");
    assert_eq!(classes2.button, "css-1");
    assert!(!again.flushed);
    assert_eq!(reg.stylesheet(), ".css-0 { color: red; }\n.css-1 { margin: 5px; }\n");

    assert_eq!(reg.update_theme(Palette { color: "blue" }), Ok(true));
    assert_eq!(reg.stylesheet(), ".css-0 { color: blue; }\n.css-1 { margin: 5px; }\n");

    assert_eq!(reg.update_theme(Palette { color: "blue" }), Ok(false));
    assert_eq!(reg.stylesheet(), ".css-0 { color: blue; }\n.css-1 { margin: 5px; }\n");
    assert_eq!(reg.counter(), 2);
}
