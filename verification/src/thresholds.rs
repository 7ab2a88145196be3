//! The threshold cascade: picking at most one heating recipe from a
//! temperature reading.
//!
//! Temperatures are carried as integers in hundredths of a degree Celsius,
//! so that comparisons are exact.  A [`ThresholdSet`] holds four bands in
//! strictly descending order; the first threshold that the reading exceeds
//! (scanning from the highest) selects the matching recipe, and a reading
//! at or below the lowest threshold selects none.

use vstd::prelude::*;

verus! {

/// The four pre-configured heating recipes the hub can run, from the band
/// above the highest threshold down to the band above the lowest.
#[derive(Clone, Copy, PartialEq, Eq, Structural, Debug)]
pub enum Recipe {
    Start6am,
    Start430am,
    Start330am,
    Start2am,
}

/// Recipe argument for the 6am start recipe.
pub open spec fn recipe_6am_value() -> Seq<u8> {
    seq!['[' as u8, '\'' as u8, '6' as u8, 'a' as u8, 'm' as u8, ' ' as u8, 'S' as u8, 't' as u8, 'a' as u8, 'r' as u8, 't' as u8, ' ' as u8, 'T' as u8, 'i' as u8, 'm' as u8, 'e' as u8, '.' as u8, '\'' as u8, ']' as u8]
}

pub fn recipe_6am_value_bytes() -> (r: Vec<u8>)
    ensures
        r@ == recipe_6am_value(),
{
    let mut r: Vec<u8> = Vec::new();
    r.push('[' as u8);
    r.push('\'' as u8);
    r.push('6' as u8);
    r.push('a' as u8);
    r.push('m' as u8);
    r.push(' ' as u8);
    r.push('S' as u8);
    r.push('t' as u8);
    r.push('a' as u8);
    r.push('r' as u8);
    r.push('t' as u8);
    r.push(' ' as u8);
    r.push('T' as u8);
    r.push('i' as u8);
    r.push('m' as u8);
    r.push('e' as u8);
    r.push('.' as u8);
    r.push('\'' as u8);
    r.push(']' as u8);
    proof { assert(r@ =~= recipe_6am_value()); }
    r
}

/// Recipe argument for the 4.30am start recipe.
pub open spec fn recipe_430am_value() -> Seq<u8> {
    seq!['[' as u8, '\'' as u8, '4' as u8, '.' as u8, '3' as u8, '0' as u8, ' ' as u8, 'a' as u8, 'm' as u8, ' ' as u8, 'H' as u8, 'e' as u8, 'a' as u8, 't' as u8, 'i' as u8, 'n' as u8, 'g' as u8, ' ' as u8, 'S' as u8, 't' as u8, 'a' as u8, 'r' as u8, 't' as u8, '\'' as u8, ']' as u8]
}

pub fn recipe_430am_value_bytes() -> (r: Vec<u8>)
    ensures
        r@ == recipe_430am_value(),
{
    let mut r: Vec<u8> = Vec::new();
    r.push('[' as u8);
    r.push('\'' as u8);
    r.push('4' as u8);
    r.push('.' as u8);
    r.push('3' as u8);
    r.push('0' as u8);
    r.push(' ' as u8);
    r.push('a' as u8);
    r.push('m' as u8);
    r.push(' ' as u8);
    r.push('H' as u8);
    r.push('e' as u8);
    r.push('a' as u8);
    r.push('t' as u8);
    r.push('i' as u8);
    r.push('n' as u8);
    r.push('g' as u8);
    r.push(' ' as u8);
    r.push('S' as u8);
    r.push('t' as u8);
    r.push('a' as u8);
    r.push('r' as u8);
    r.push('t' as u8);
    r.push('\'' as u8);
    r.push(']' as u8);
    proof { assert(r@ =~= recipe_430am_value()); }
    r
}

/// Recipe argument for the 3.30am start recipe.
pub open spec fn recipe_330am_value() -> Seq<u8> {
    seq!['[' as u8, '\'' as u8, '3' as u8, '.' as u8, '3' as u8, '0' as u8, 'a' as u8, 'm' as u8, ' ' as u8, 'H' as u8, 'e' as u8, 'a' as u8, 't' as u8, 'i' as u8, 'n' as u8, 'g' as u8, ' ' as u8, 'S' as u8, 't' as u8, 'a' as u8, 'r' as u8, 't' as u8, '.' as u8, '\'' as u8, ']' as u8]
}

pub fn recipe_330am_value_bytes() -> (r: Vec<u8>)
    ensures
        r@ == recipe_330am_value(),
{
    let mut r: Vec<u8> = Vec::new();
    r.push('[' as u8);
    r.push('\'' as u8);
    r.push('3' as u8);
    r.push('.' as u8);
    r.push('3' as u8);
    r.push('0' as u8);
    r.push('a' as u8);
    r.push('m' as u8);
    r.push(' ' as u8);
    r.push('H' as u8);
    r.push('e' as u8);
    r.push('a' as u8);
    r.push('t' as u8);
    r.push('i' as u8);
    r.push('n' as u8);
    r.push('g' as u8);
    r.push(' ' as u8);
    r.push('S' as u8);
    r.push('t' as u8);
    r.push('a' as u8);
    r.push('r' as u8);
    r.push('t' as u8);
    r.push('.' as u8);
    r.push('\'' as u8);
    r.push(']' as u8);
    proof { assert(r@ =~= recipe_330am_value()); }
    r
}

/// Recipe argument for the 2am start recipe.
pub open spec fn recipe_2am_value() -> Seq<u8> {
    seq!['[' as u8, '\'' as u8, '2' as u8, 'a' as u8, 'm' as u8, ' ' as u8, 'H' as u8, 'e' as u8, 'a' as u8, 't' as u8, 'i' as u8, 'n' as u8, 'g' as u8, ' ' as u8, 'S' as u8, 't' as u8, 'a' as u8, 'r' as u8, 't' as u8, '.' as u8, '\'' as u8, ']' as u8]
}

pub fn recipe_2am_value_bytes() -> (r: Vec<u8>)
    ensures
        r@ == recipe_2am_value(),
{
    let mut r: Vec<u8> = Vec::new();
    r.push('[' as u8);
    r.push('\'' as u8);
    r.push('2' as u8);
    r.push('a' as u8);
    r.push('m' as u8);
    r.push(' ' as u8);
    r.push('H' as u8);
    r.push('e' as u8);
    r.push('a' as u8);
    r.push('t' as u8);
    r.push('i' as u8);
    r.push('n' as u8);
    r.push('g' as u8);
    r.push(' ' as u8);
    r.push('S' as u8);
    r.push('t' as u8);
    r.push('a' as u8);
    r.push('r' as u8);
    r.push('t' as u8);
    r.push('.' as u8);
    r.push('\'' as u8);
    r.push(']' as u8);
    proof { assert(r@ =~= recipe_2am_value()); }
    r
}

impl Recipe {
    /// The list-like literal that names this recipe in a `RUN_RECIPE`
    /// command, exactly as the hub knows it.
    pub open spec fn spec_value(self) -> Seq<u8> {
        match self {
            Recipe::Start6am => recipe_6am_value(),
            Recipe::Start430am => recipe_430am_value(),
            Recipe::Start330am => recipe_330am_value(),
            Recipe::Start2am => recipe_2am_value(),
        }
    }

    /// Executable form of [`Recipe::spec_value`].
    pub fn value_bytes(&self) -> (r: Vec<u8>)
        ensures
            r@ == self.spec_value(),
    {
        match self {
            Recipe::Start6am => recipe_6am_value_bytes(),
            Recipe::Start430am => recipe_430am_value_bytes(),
            Recipe::Start330am => recipe_330am_value_bytes(),
            Recipe::Start2am => recipe_2am_value_bytes(),
        }
    }
}

/// Four temperature thresholds in hundredths of a degree Celsius,
/// meaningful only when strictly descending (see [`ThresholdSet::wf`]).
#[derive(Clone, Copy, PartialEq, Eq, Structural, Debug)]
pub struct ThresholdSet {
    pub t1: i64,
    pub t2: i64,
    pub t3: i64,
    pub t4: i64,
}

impl ThresholdSet {
    /// The bands are strictly descending, so they tile the temperature
    /// axis into five disjoint ranges.
    pub open spec fn wf(self) -> bool {
        self.t1 > self.t2 > self.t3 > self.t4
    }

    /// The recipe the cascade selects for reading `x`: the first threshold
    /// exceeded, scanning from the highest, names the recipe; a reading at
    /// or below every threshold selects none.
    pub open spec fn spec_select(self, x: i64) -> Option<Recipe> {
        if x > self.t1 {
            Some(Recipe::Start6am)
        } else if x > self.t2 {
            Some(Recipe::Start430am)
        } else if x > self.t3 {
            Some(Recipe::Start330am)
        } else if x > self.t4 {
            Some(Recipe::Start2am)
        } else {
            None
        }
    }

    /// Executable form of the cascade.
    pub fn select(&self, x: i64) -> (r: Option<Recipe>)
        ensures
            r == self.spec_select(x),
    {
        if x > self.t1 {
            Some(Recipe::Start6am)
        } else if x > self.t2 {
            Some(Recipe::Start430am)
        } else if x > self.t3 {
            Some(Recipe::Start330am)
        } else if x > self.t4 {
            Some(Recipe::Start2am)
        } else {
            None
        }
    }
}

/// On a well-formed threshold set the cascade realises the five disjoint
/// bands: a reading above `t1` selects the first recipe, a reading in
/// `(t2, t1]` the second, in `(t3, t2]` the third, in `(t4, t3]` the
/// fourth, and a reading at or below `t4` selects none.
pub proof fn lemma_threshold_cascade(ts: ThresholdSet, x: i64)
    requires
        ts.wf(),
    ensures
        x > ts.t1 ==> ts.spec_select(x) == Some(Recipe::Start6am),
        ts.t2 < x <= ts.t1 ==> ts.spec_select(x) == Some(Recipe::Start430am),
        ts.t3 < x <= ts.t2 ==> ts.spec_select(x) == Some(Recipe::Start330am),
        ts.t4 < x <= ts.t3 ==> ts.spec_select(x) == Some(Recipe::Start2am),
        x <= ts.t4 ==> ts.spec_select(x) is None,
{
}

} // verus!
