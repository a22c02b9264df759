//! Runtime registration of style generators.
//!
//! A style generator writes CSS text for a theme and mints class names from a
//! shared counter. The registry in [`style_provider`] gives each distinct
//! generator a stable range of counter values, keeps one stylesheet built from
//! every registered generator in registration order, and rebuilds it when the
//! theme changes.
use vstd::prelude::*;

pub mod style_provider;

pub use style_provider::{Inner, Registration, StyleError, Updater};

verus! {

/// A theme that styles are generated from.
///
/// `fast_cmp` is a cheap test that `other` would generate the same styles as
/// `self`. It only decides whether a theme change can be skipped: an
/// implementation that always answers `false` is correct, it merely rebuilds
/// the stylesheet on every change.
pub trait Theme: Sized {
    /// Whether `other` generates the same styles as `self`, as far as this
    /// theme's cheap comparison can tell. Where an implementation is not
    /// checked by Verus, it defines this as the comparison itself.
    spec fn unchanged(&self, other: &Self) -> bool;

    fn fast_cmp(&self, other: &Self) -> (r: bool)
        ensures
            r == self.unchanged(other),
    ;
}

/// A theme that carries nothing: every two values are the same theme.
#[derive(Clone, Copy)]
pub struct EmptyTheme;

impl Theme for EmptyTheme {
    open spec fn unchanged(&self, other: &Self) -> bool {
        true
    }

    fn fast_cmp(&self, other: &Self) -> bool {
        true
    }
}

/// Something that writes style rules for a theme.
///
/// `generate` appends CSS text to `css` and takes the identifiers of the rules
/// it defines from `counter`, reading and then incrementing it once per
/// identifier. It must be deterministic: run on the same theme from the same
/// counter value, it appends the same text and leaves the counter at the same
/// value: `output` names that text and that value. The registry checks the
/// counter at run time.
pub trait StyleGenerator<T> {
    /// The text that the generator appends when run on `theme` with the
    /// counter at `start`, and the value at which it leaves the counter.
    /// Where an implementation is not checked by Verus, it defines this by
    /// running `generate` on an empty buffer.
    spec fn output(&self, theme: T, start: u64) -> (String, u64);

    fn generate(&self, theme: &T, css: &mut String, counter: &mut u64)
        ensures
            final(css)@ == old(css)@ + self.output(*theme, *old(counter)).0@,
            *final(counter) == self.output(*theme, *old(counter)).1,
    ;
}

/// A bundle of class names together with the rules that define them.
///
/// `generate` writes the rules, drawing one identifier from `counter` per class
/// name; `new(start)` builds the bundle whose class names are those
/// identifiers when the counter started at `start`.
pub trait Classes: Sized {
    type Theme: Theme;

    fn generate(theme: &Self::Theme, css: &mut String, counter: &mut u64);

    fn new(start: u64) -> Self;
}

} // verus!
