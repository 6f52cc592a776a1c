//! Camera runtime controls: typed, range-checked values (exposure, gain,
//! white balance, ...) discovered from the device, plus an overflow bucket
//! for controls unknown to the static schema.
//!
//! A control value carries an optional valid range `[min, max]` and a
//! default. Writes outside the range are rejected; the clamped setter always
//! succeeds and lands inside the range. Only values that differ from their
//! default are submitted with a capture request.

use vstd::prelude::*;

use crate::error::{LibcameraError, Result};

verus! {

/// A fixed-point scalar with micro-unit resolution. It stands for the
/// fractional control values the device reports (a brightness of 0.3 is
/// `Fixed { micros: 300_000 }`); the boundary code converts to and from the
/// device's floating-point representation.
#[derive(Debug, Clone, Copy, PartialEq, Eq, Structural)]
pub struct Fixed {
    /// The value in millionths of a unit.
    pub micros: i64,
}

/// A pair of two fixed-point values, e.g. red/blue colour gains.
#[derive(Debug, Clone, Copy, PartialEq, Eq, Structural)]
pub struct FixedPair(pub Fixed, pub Fixed);

/// A control value rectangle, e.g. a scaler crop region.
#[derive(Debug, Clone, Copy, PartialEq, Eq, Structural)]
pub struct Rectangle {
    /// The starting x position.
    pub x: i32,
    /// The starting y position.
    pub y: i32,
    /// The width.
    pub width: u32,
    /// The height.
    pub height: u32,
}

/// A control value size.
#[derive(Debug, Clone, Copy, PartialEq, Eq, Structural)]
pub struct Size {
    /// The width.
    pub width: u32,
    /// The height.
    pub height: u32,
}

/// Values that can be ordered and clamped to a `[min, max]` range.
///
/// `le_spec` is the (possibly partial) order a control range is read in:
/// `a.le_spec(b)` means `a <= b`. `clamp_spec` says exactly which value the
/// clamping setter stores. The two lemmas are the laws every implementation
/// proves: the order is transitive, and clamping into a non-empty range
/// lands inside it and leaves in-range values unchanged.
pub trait Clampable: Sized {
    /// `self <= other` in this type's order; `false` also covers
    /// incomparable values of a partial order.
    spec fn le_spec(&self, other: &Self) -> bool;

    /// Equality as used by the "changed from default" predicate.
    spec fn eq_spec(&self, other: &Self) -> bool;

    /// The value stored when `v` is clamped to `[min, max]`.
    spec fn clamp_spec(v: Self, min: Self, max: Self) -> Self;

    /// The order is transitive.
    proof fn lemma_le_trans(a: &Self, b: &Self, c: &Self)
        requires
            a.le_spec(b),
            b.le_spec(c),
        ensures
            a.le_spec(c),
    ;

    /// Clamping to a non-empty range lands inside the range, and is the
    /// identity on values already inside it.
    proof fn lemma_clamp_spec(v: Self, min: Self, max: Self)
        requires
            min.le_spec(&max),
        ensures
            min.le_spec(&Self::clamp_spec(v, min, max)),
            Self::clamp_spec(v, min, max).le_spec(&max),
            min.le_spec(&v) && v.le_spec(&max) ==> Self::clamp_spec(v, min, max) == v,
    ;

    /// Decides `self <= other`.
    fn le(&self, other: &Self) -> (r: bool)
        ensures
            r == self.le_spec(other),
    ;

    /// Decides equality.
    fn eq_value(&self, other: &Self) -> (r: bool)
        ensures
            r == self.eq_spec(other),
    ;

    /// Returns a copy of the value.
    fn duplicate(&self) -> (r: Self)
        ensures
            r == *self,
    ;

    /// Clamps `self` to `[min, max]`.
    fn clamp(self, min: &Self, max: &Self) -> (r: Self)
        requires
            min.le_spec(max),
        ensures
            r == Self::clamp_spec(self, *min, *max),
    ;
}

impl Clampable for bool {
    open spec fn le_spec(&self, other: &Self) -> bool {
        !*self || *other
    }

    open spec fn eq_spec(&self, other: &Self) -> bool {
        *self == *other
    }

    open spec fn clamp_spec(v: Self, min: Self, max: Self) -> Self {
        if !min.le_spec(&v) {
            min
        } else if !v.le_spec(&max) {
            max
        } else {
            v
        }
    }

    proof fn lemma_le_trans(a: &Self, b: &Self, c: &Self) {
    }

    proof fn lemma_clamp_spec(v: Self, min: Self, max: Self) {
    }

    fn le(&self, other: &Self) -> (r: bool) {
        !*self || *other
    }

    fn eq_value(&self, other: &Self) -> (r: bool) {
        *self == *other
    }

    fn duplicate(&self) -> (r: Self) {
        *self
    }

    fn clamp(self, min: &Self, max: &Self) -> (r: Self) {
        if !(!*min || self) {
            *min
        } else if !(!self || *max) {
            *max
        } else {
            self
        }
    }
}

impl Clampable for u8 {
    open spec fn le_spec(&self, other: &Self) -> bool {
        *self <= *other
    }

    open spec fn eq_spec(&self, other: &Self) -> bool {
        *self == *other
    }

    open spec fn clamp_spec(v: Self, min: Self, max: Self) -> Self {
        if v < min {
            min
        } else if max < v {
            max
        } else {
            v
        }
    }

    proof fn lemma_le_trans(a: &Self, b: &Self, c: &Self) {
    }

    proof fn lemma_clamp_spec(v: Self, min: Self, max: Self) {
    }

    fn le(&self, other: &Self) -> (r: bool) {
        *self <= *other
    }

    fn eq_value(&self, other: &Self) -> (r: bool) {
        *self == *other
    }

    fn duplicate(&self) -> (r: Self) {
        *self
    }

    fn clamp(self, min: &Self, max: &Self) -> (r: Self) {
        if self < *min {
            *min
        } else if *max < self {
            *max
        } else {
            self
        }
    }
}

impl Clampable for i32 {
    open spec fn le_spec(&self, other: &Self) -> bool {
        *self <= *other
    }

    open spec fn eq_spec(&self, other: &Self) -> bool {
        *self == *other
    }

    open spec fn clamp_spec(v: Self, min: Self, max: Self) -> Self {
        if v < min {
            min
        } else if max < v {
            max
        } else {
            v
        }
    }

    proof fn lemma_le_trans(a: &Self, b: &Self, c: &Self) {
    }

    proof fn lemma_clamp_spec(v: Self, min: Self, max: Self) {
    }

    fn le(&self, other: &Self) -> (r: bool) {
        *self <= *other
    }

    fn eq_value(&self, other: &Self) -> (r: bool) {
        *self == *other
    }

    fn duplicate(&self) -> (r: Self) {
        *self
    }

    fn clamp(self, min: &Self, max: &Self) -> (r: Self) {
        if self < *min {
            *min
        } else if *max < self {
            *max
        } else {
            self
        }
    }
}

impl Clampable for i64 {
    open spec fn le_spec(&self, other: &Self) -> bool {
        *self <= *other
    }

    open spec fn eq_spec(&self, other: &Self) -> bool {
        *self == *other
    }

    open spec fn clamp_spec(v: Self, min: Self, max: Self) -> Self {
        if v < min {
            min
        } else if max < v {
            max
        } else {
            v
        }
    }

    proof fn lemma_le_trans(a: &Self, b: &Self, c: &Self) {
    }

    proof fn lemma_clamp_spec(v: Self, min: Self, max: Self) {
    }

    fn le(&self, other: &Self) -> (r: bool) {
        *self <= *other
    }

    fn eq_value(&self, other: &Self) -> (r: bool) {
        *self == *other
    }

    fn duplicate(&self) -> (r: Self) {
        *self
    }

    fn clamp(self, min: &Self, max: &Self) -> (r: Self) {
        if self < *min {
            *min
        } else if *max < self {
            *max
        } else {
            self
        }
    }
}

impl Clampable for Fixed {
    open spec fn le_spec(&self, other: &Self) -> bool {
        self.micros <= other.micros
    }

    open spec fn eq_spec(&self, other: &Self) -> bool {
        *self == *other
    }

    open spec fn clamp_spec(v: Self, min: Self, max: Self) -> Self {
        if v.micros < min.micros {
            min
        } else if max.micros < v.micros {
            max
        } else {
            v
        }
    }

    proof fn lemma_le_trans(a: &Self, b: &Self, c: &Self) {
    }

    proof fn lemma_clamp_spec(v: Self, min: Self, max: Self) {
    }

    fn le(&self, other: &Self) -> (r: bool) {
        self.micros <= other.micros
    }

    fn eq_value(&self, other: &Self) -> (r: bool) {
        self.micros == other.micros
    }

    fn duplicate(&self) -> (r: Self) {
        *self
    }

    fn clamp(self, min: &Self, max: &Self) -> (r: Self) {
        if self.micros < min.micros {
            *min
        } else if max.micros < self.micros {
            *max
        } else {
            self
        }
    }
}

impl Clampable for FixedPair {
    /// Componentwise order: a partial order on pairs.
    open spec fn le_spec(&self, other: &Self) -> bool {
        self.0.micros <= other.0.micros && self.1.micros <= other.1.micros
    }

    open spec fn eq_spec(&self, other: &Self) -> bool {
        *self == *other
    }

    open spec fn clamp_spec(v: Self, min: Self, max: Self) -> Self {
        FixedPair(
            Fixed::clamp_spec(v.0, min.0, max.0),
            Fixed::clamp_spec(v.1, min.1, max.1),
        )
    }

    proof fn lemma_le_trans(a: &Self, b: &Self, c: &Self) {
    }

    proof fn lemma_clamp_spec(v: Self, min: Self, max: Self) {
    }

    fn le(&self, other: &Self) -> (r: bool) {
        self.0.micros <= other.0.micros && self.1.micros <= other.1.micros
    }

    fn eq_value(&self, other: &Self) -> (r: bool) {
        self.0.micros == other.0.micros && self.1.micros == other.1.micros
    }

    fn duplicate(&self) -> (r: Self) {
        *self
    }

    fn clamp(self, min: &Self, max: &Self) -> (r: Self) {
        FixedPair(self.0.clamp(&min.0, &max.0), self.1.clamp(&min.1, &max.1))
    }
}

impl Clampable for Rectangle {
    /// Componentwise order: a partial order on rectangles.
    open spec fn le_spec(&self, other: &Self) -> bool {
        self.x <= other.x && self.y <= other.y && self.width <= other.width && self.height
            <= other.height
    }

    open spec fn eq_spec(&self, other: &Self) -> bool {
        *self == *other
    }

    open spec fn clamp_spec(v: Self, min: Self, max: Self) -> Self {
        Rectangle {
            x: i32::clamp_spec(v.x, min.x, max.x),
            y: i32::clamp_spec(v.y, min.y, max.y),
            width: if v.width < min.width {
                min.width
            } else if max.width < v.width {
                max.width
            } else {
                v.width
            },
            height: if v.height < min.height {
                min.height
            } else if max.height < v.height {
                max.height
            } else {
                v.height
            },
        }
    }

    proof fn lemma_le_trans(a: &Self, b: &Self, c: &Self) {
    }

    proof fn lemma_clamp_spec(v: Self, min: Self, max: Self) {
    }

    fn le(&self, other: &Self) -> (r: bool) {
        self.x <= other.x && self.y <= other.y && self.width <= other.width && self.height
            <= other.height
    }

    fn eq_value(&self, other: &Self) -> (r: bool) {
        self.x == other.x && self.y == other.y && self.width == other.width && self.height
            == other.height
    }

    fn duplicate(&self) -> (r: Self) {
        *self
    }

    fn clamp(self, min: &Self, max: &Self) -> (r: Self) {
        let x = if self.x < min.x {
            min.x
        } else if max.x < self.x {
            max.x
        } else {
            self.x
        };
        let y = if self.y < min.y {
            min.y
        } else if max.y < self.y {
            max.y
        } else {
            self.y
        };
        let width = if self.width < min.width {
            min.width
        } else if max.width < self.width {
            max.width
        } else {
            self.width
        };
        let height = if self.height < min.height {
            min.height
        } else if max.height < self.height {
            max.height
        } else {
            self.height
        };
        Rectangle { x, y, width, height }
    }
}

impl Clampable for Size {
    /// Componentwise order: a partial order on sizes.
    open spec fn le_spec(&self, other: &Self) -> bool {
        self.width <= other.width && self.height <= other.height
    }

    open spec fn eq_spec(&self, other: &Self) -> bool {
        *self == *other
    }

    open spec fn clamp_spec(v: Self, min: Self, max: Self) -> Self {
        Size {
            width: if v.width < min.width {
                min.width
            } else if max.width < v.width {
                max.width
            } else {
                v.width
            },
            height: if v.height < min.height {
                min.height
            } else if max.height < v.height {
                max.height
            } else {
                v.height
            },
        }
    }

    proof fn lemma_le_trans(a: &Self, b: &Self, c: &Self) {
    }

    proof fn lemma_clamp_spec(v: Self, min: Self, max: Self) {
    }

    fn le(&self, other: &Self) -> (r: bool) {
        self.width <= other.width && self.height <= other.height
    }

    fn eq_value(&self, other: &Self) -> (r: bool) {
        self.width == other.width && self.height == other.height
    }

    fn duplicate(&self) -> (r: Self) {
        *self
    }

    fn clamp(self, min: &Self, max: &Self) -> (r: Self) {
        let width = if self.width < min.width {
            min.width
        } else if max.width < self.width {
            max.width
        } else {
            self.width
        };
        let height = if self.height < min.height {
            min.height
        } else if max.height < self.height {
            max.height
        } else {
            self.height
        };
        Size { width, height }
    }
}

/// Lexicographic order on character sequences, comparing code points from
/// position `i` on: a prefix precedes every extension of it.
pub open spec fn spec_lex_le(a: Seq<char>, b: Seq<char>, i: int) -> bool
    decreases a.len() - i,
{
    if i >= a.len() {
        true
    } else if i >= b.len() {
        false
    } else if a[i] == b[i] {
        spec_lex_le(a, b, i + 1)
    } else {
        (a[i] as u32) < (b[i] as u32)
    }
}

/// The lexicographic order is reflexive.
proof fn lemma_lex_refl(a: Seq<char>, i: int)
    ensures
        spec_lex_le(a, a, i),
    decreases a.len() - i,
{
    if i < a.len() {
        lemma_lex_refl(a, i + 1);
    }
}

/// The lexicographic order is transitive.
proof fn lemma_lex_trans(a: Seq<char>, b: Seq<char>, c: Seq<char>, i: int)
    requires
        spec_lex_le(a, b, i),
        spec_lex_le(b, c, i),
    ensures
        spec_lex_le(a, c, i),
    decreases a.len() - i,
{
    if i < a.len() {
        if i < b.len() && i < c.len() && a[i] == b[i] && b[i] == c[i] {
            lemma_lex_trans(a, b, c, i + 1);
        }
    }
}

impl Clampable for std::string::String {
    open spec fn le_spec(&self, other: &Self) -> bool {
        spec_lex_le(self@, other@, 0)
    }

    open spec fn eq_spec(&self, other: &Self) -> bool {
        self@ == other@
    }

    open spec fn clamp_spec(v: Self, min: Self, max: Self) -> Self {
        if !min.le_spec(&v) {
            min
        } else if !v.le_spec(&max) {
            max
        } else {
            v
        }
    }

    proof fn lemma_le_trans(a: &Self, b: &Self, c: &Self) {
        lemma_lex_trans(a@, b@, c@, 0);
    }

    proof fn lemma_clamp_spec(v: Self, min: Self, max: Self) {
        lemma_lex_refl(min@, 0);
        lemma_lex_refl(max@, 0);
        lemma_lex_refl(v@, 0);
    }

    fn le(&self, other: &Self) -> (r: bool) {
        lex_le(self, other)
    }

    fn eq_value(&self, other: &Self) -> (r: bool) {
        self.eq(other)
    }

    fn duplicate(&self) -> (r: Self) {
        self.clone()
    }

    fn clamp(self, min: &Self, max: &Self) -> (r: Self) {
        if !lex_le(min, &self) {
            min.clone()
        } else if !lex_le(&self, max) {
            max.clone()
        } else {
            self
        }
    }
}

/// Decides the lexicographic order on strings, by code point.
fn lex_le(a: &std::string::String, b: &std::string::String) -> (r: bool)
    ensures
        r == spec_lex_le(a@, b@, 0),
{
    let alen = a.as_str().unicode_len();
    let blen = b.as_str().unicode_len();
    let mut i: usize = 0;
    while i < alen && i < blen
        invariant
            0 <= i <= alen,
            0 <= i <= blen,
            alen == a@.len(),
            blen == b@.len(),
            spec_lex_le(a@, b@, 0) == spec_lex_le(a@, b@, i as int),
        decreases alen - i,
    {
        let ca = a.as_str().get_char(i);
        let cb = b.as_str().get_char(i);
        if ca != cb {
            return (ca as u32) < (cb as u32);
        }
        i = i + 1;
    }
    i >= alen
}

/// Camera auto-exposure metering mode.
#[derive(Debug, Clone, Copy, PartialEq, Eq, Structural)]
pub enum AeMeteringMode {
    /// Weight the centre of the frame most.
    CentreWeighted,
    /// Meter a single spot.
    Spot,
    /// Meter a grid of zones.
    Matrix,
    /// A camera-specific mode.
    Custom,
}

/// Camera auto-exposure constraint mode.
#[derive(Debug, Clone, Copy, PartialEq, Eq, Structural)]
pub enum AeConstraintMode {
    /// Default constraints.
    Normal,
    /// Constrain so highlights do not blow out.
    Highlight,
    /// A camera-specific mode.
    Custom,
}

/// Camera auto-exposure mode.
#[derive(Debug, Clone, Copy, PartialEq, Eq, Structural)]
pub enum AeExposureMode {
    /// Default exposure times.
    Normal,
    /// Shorter than normal.
    Short,
    /// Longer than normal.
    Long,
}

/// Camera auto white balance mode.
#[derive(Debug, Clone, Copy, PartialEq, Eq, Structural)]
pub enum AwbMode {
    /// Automatic.
    Auto,
    /// Incandescent lighting.
    Incandescent,
    /// Tungsten lighting.
    Tungsten,
    /// Fluorescent lighting.
    Fluorescent,
    /// Indoor lighting.
    Indoor,
    /// Daylight.
    Daylight,
    /// Cloudy daylight.
    Cloudy,
    /// A camera-specific mode.
    Custom,
}

impl AeMeteringMode {
    /// The numeric code the device uses for this mode.
    pub open spec fn spec_code(&self) -> int {
        match self {
            AeMeteringMode::CentreWeighted => 0,
            AeMeteringMode::Spot => 1,
            AeMeteringMode::Matrix => 2,
            AeMeteringMode::Custom => 3,
        }
    }

    /// Returns the numeric code the device uses for this mode.
    pub fn code(&self) -> (r: i32)
        ensures
            r as int == self.spec_code(),
    {
        match self {
            AeMeteringMode::CentreWeighted => 0,
            AeMeteringMode::Spot => 1,
            AeMeteringMode::Matrix => 2,
            AeMeteringMode::Custom => 3,
        }
    }

    /// The mode a device code decodes to, if any.
    pub open spec fn spec_from_code(i: i32) -> Option<AeMeteringMode> {
        if i == 0 {
            Some(AeMeteringMode::CentreWeighted)
        } else if i == 1 {
            Some(AeMeteringMode::Spot)
        } else if i == 2 {
            Some(AeMeteringMode::Matrix)
        } else if i == 3 {
            Some(AeMeteringMode::Custom)
        } else {
            None
        }
    }

    /// Decodes a device code; fails on codes outside the mode table.
    pub fn from_code(i: i32) -> (r: Result<AeMeteringMode>)
        ensures
            match r {
                Ok(m) => m.spec_code() == i as int && Some(m) == AeMeteringMode::spec_from_code(i),
                Err(e) => e == LibcameraError::InvalidControlValue && !(0 <= i <= 3),
            },
            (r is Ok) == (0 <= i <= 3),
    {
        match i {
            0 => Ok(AeMeteringMode::CentreWeighted),
            1 => Ok(AeMeteringMode::Spot),
            2 => Ok(AeMeteringMode::Matrix),
            3 => Ok(AeMeteringMode::Custom),
            _ => Err(LibcameraError::InvalidControlValue),
        }
    }
}

impl AeConstraintMode {
    /// The numeric code the device uses for this mode.
    pub open spec fn spec_code(&self) -> int {
        match self {
            AeConstraintMode::Normal => 0,
            AeConstraintMode::Highlight => 1,
            AeConstraintMode::Custom => 2,
        }
    }

    /// Returns the numeric code the device uses for this mode.
    pub fn code(&self) -> (r: i32)
        ensures
            r as int == self.spec_code(),
    {
        match self {
            AeConstraintMode::Normal => 0,
            AeConstraintMode::Highlight => 1,
            AeConstraintMode::Custom => 2,
        }
    }

    /// The mode a device code decodes to, if any.
    pub open spec fn spec_from_code(i: i32) -> Option<AeConstraintMode> {
        if i == 0 {
            Some(AeConstraintMode::Normal)
        } else if i == 1 {
            Some(AeConstraintMode::Highlight)
        } else if i == 2 {
            Some(AeConstraintMode::Custom)
        } else {
            None
        }
    }

    /// Decodes a device code; fails on codes outside the mode table.
    pub fn from_code(i: i32) -> (r: Result<AeConstraintMode>)
        ensures
            match r {
                Ok(m) => m.spec_code() == i as int && Some(m) == AeConstraintMode::spec_from_code(i),
                Err(e) => e == LibcameraError::InvalidControlValue && !(0 <= i <= 2),
            },
            (r is Ok) == (0 <= i <= 2),
    {
        match i {
            0 => Ok(AeConstraintMode::Normal),
            1 => Ok(AeConstraintMode::Highlight),
            2 => Ok(AeConstraintMode::Custom),
            _ => Err(LibcameraError::InvalidControlValue),
        }
    }
}

impl AeExposureMode {
    /// The numeric code the device uses for this mode.
    pub open spec fn spec_code(&self) -> int {
        match self {
            AeExposureMode::Normal => 0,
            AeExposureMode::Short => 1,
            AeExposureMode::Long => 2,
        }
    }

    /// Returns the numeric code the device uses for this mode.
    pub fn code(&self) -> (r: i32)
        ensures
            r as int == self.spec_code(),
    {
        match self {
            AeExposureMode::Normal => 0,
            AeExposureMode::Short => 1,
            AeExposureMode::Long => 2,
        }
    }

    /// The mode a device code decodes to, if any.
    pub open spec fn spec_from_code(i: i32) -> Option<AeExposureMode> {
        if i == 0 {
            Some(AeExposureMode::Normal)
        } else if i == 1 {
            Some(AeExposureMode::Short)
        } else if i == 2 {
            Some(AeExposureMode::Long)
        } else {
            None
        }
    }

    /// Decodes a device code; fails on codes outside the mode table.
    pub fn from_code(i: i32) -> (r: Result<AeExposureMode>)
        ensures
            match r {
                Ok(m) => m.spec_code() == i as int && Some(m) == AeExposureMode::spec_from_code(i),
                Err(e) => e == LibcameraError::InvalidControlValue && !(0 <= i <= 2),
            },
            (r is Ok) == (0 <= i <= 2),
    {
        match i {
            0 => Ok(AeExposureMode::Normal),
            1 => Ok(AeExposureMode::Short),
            2 => Ok(AeExposureMode::Long),
            _ => Err(LibcameraError::InvalidControlValue),
        }
    }
}

impl AwbMode {
    /// The numeric code the device uses for this mode.
    pub open spec fn spec_code(&self) -> int {
        match self {
            AwbMode::Auto => 0,
            AwbMode::Incandescent => 1,
            AwbMode::Tungsten => 2,
            AwbMode::Fluorescent => 3,
            AwbMode::Indoor => 4,
            AwbMode::Daylight => 5,
            AwbMode::Cloudy => 6,
            AwbMode::Custom => 7,
        }
    }

    /// Returns the numeric code the device uses for this mode.
    pub fn code(&self) -> (r: i32)
        ensures
            r as int == self.spec_code(),
    {
        match self {
            AwbMode::Auto => 0,
            AwbMode::Incandescent => 1,
            AwbMode::Tungsten => 2,
            AwbMode::Fluorescent => 3,
            AwbMode::Indoor => 4,
            AwbMode::Daylight => 5,
            AwbMode::Cloudy => 6,
            AwbMode::Custom => 7,
        }
    }

    /// The mode a device code decodes to, if any.
    pub open spec fn spec_from_code(i: i32) -> Option<AwbMode> {
        if i == 0 {
            Some(AwbMode::Auto)
        } else if i == 1 {
            Some(AwbMode::Incandescent)
        } else if i == 2 {
            Some(AwbMode::Tungsten)
        } else if i == 3 {
            Some(AwbMode::Fluorescent)
        } else if i == 4 {
            Some(AwbMode::Indoor)
        } else if i == 5 {
            Some(AwbMode::Daylight)
        } else if i == 6 {
            Some(AwbMode::Cloudy)
        } else if i == 7 {
            Some(AwbMode::Custom)
        } else {
            None
        }
    }

    /// Decodes a device code; fails on codes outside the mode table.
    pub fn from_code(i: i32) -> (r: Result<AwbMode>)
        ensures
            match r {
                Ok(m) => m.spec_code() == i as int && Some(m) == AwbMode::spec_from_code(i),
                Err(e) => e == LibcameraError::InvalidControlValue && !(0 <= i <= 7),
            },
            (r is Ok) == (0 <= i <= 7),
    {
        match i {
            0 => Ok(AwbMode::Auto),
            1 => Ok(AwbMode::Incandescent),
            2 => Ok(AwbMode::Tungsten),
            3 => Ok(AwbMode::Fluorescent),
            4 => Ok(AwbMode::Indoor),
            5 => Ok(AwbMode::Daylight),
            6 => Ok(AwbMode::Cloudy),
            7 => Ok(AwbMode::Custom),
            _ => Err(LibcameraError::InvalidControlValue),
        }
    }
}

impl Clampable for AeMeteringMode {
    open spec fn le_spec(&self, other: &Self) -> bool {
        self.spec_code() <= other.spec_code()
    }

    open spec fn eq_spec(&self, other: &Self) -> bool {
        *self == *other
    }

    open spec fn clamp_spec(v: Self, min: Self, max: Self) -> Self {
        if v.spec_code() < min.spec_code() {
            min
        } else if max.spec_code() < v.spec_code() {
            max
        } else {
            v
        }
    }

    proof fn lemma_le_trans(a: &Self, b: &Self, c: &Self) {
    }

    proof fn lemma_clamp_spec(v: Self, min: Self, max: Self) {
    }

    fn le(&self, other: &Self) -> (r: bool) {
        self.code() <= other.code()
    }

    fn eq_value(&self, other: &Self) -> (r: bool) {
        self.code() == other.code()
    }

    fn duplicate(&self) -> (r: Self) {
        *self
    }

    fn clamp(self, min: &Self, max: &Self) -> (r: Self) {
        if self.code() < min.code() {
            *min
        } else if max.code() < self.code() {
            *max
        } else {
            self
        }
    }
}

impl Clampable for AeConstraintMode {
    open spec fn le_spec(&self, other: &Self) -> bool {
        self.spec_code() <= other.spec_code()
    }

    open spec fn eq_spec(&self, other: &Self) -> bool {
        *self == *other
    }

    open spec fn clamp_spec(v: Self, min: Self, max: Self) -> Self {
        if v.spec_code() < min.spec_code() {
            min
        } else if max.spec_code() < v.spec_code() {
            max
        } else {
            v
        }
    }

    proof fn lemma_le_trans(a: &Self, b: &Self, c: &Self) {
    }

    proof fn lemma_clamp_spec(v: Self, min: Self, max: Self) {
    }

    fn le(&self, other: &Self) -> (r: bool) {
        self.code() <= other.code()
    }

    fn eq_value(&self, other: &Self) -> (r: bool) {
        self.code() == other.code()
    }

    fn duplicate(&self) -> (r: Self) {
        *self
    }

    fn clamp(self, min: &Self, max: &Self) -> (r: Self) {
        if self.code() < min.code() {
            *min
        } else if max.code() < self.code() {
            *max
        } else {
            self
        }
    }
}

impl Clampable for AeExposureMode {
    open spec fn le_spec(&self, other: &Self) -> bool {
        self.spec_code() <= other.spec_code()
    }

    open spec fn eq_spec(&self, other: &Self) -> bool {
        *self == *other
    }

    open spec fn clamp_spec(v: Self, min: Self, max: Self) -> Self {
        if v.spec_code() < min.spec_code() {
            min
        } else if max.spec_code() < v.spec_code() {
            max
        } else {
            v
        }
    }

    proof fn lemma_le_trans(a: &Self, b: &Self, c: &Self) {
    }

    proof fn lemma_clamp_spec(v: Self, min: Self, max: Self) {
    }

    fn le(&self, other: &Self) -> (r: bool) {
        self.code() <= other.code()
    }

    fn eq_value(&self, other: &Self) -> (r: bool) {
        self.code() == other.code()
    }

    fn duplicate(&self) -> (r: Self) {
        *self
    }

    fn clamp(self, min: &Self, max: &Self) -> (r: Self) {
        if self.code() < min.code() {
            *min
        } else if max.code() < self.code() {
            *max
        } else {
            self
        }
    }
}

impl Clampable for AwbMode {
    open spec fn le_spec(&self, other: &Self) -> bool {
        self.spec_code() <= other.spec_code()
    }

    open spec fn eq_spec(&self, other: &Self) -> bool {
        *self == *other
    }

    open spec fn clamp_spec(v: Self, min: Self, max: Self) -> Self {
        if v.spec_code() < min.spec_code() {
            min
        } else if max.spec_code() < v.spec_code() {
            max
        } else {
            v
        }
    }

    proof fn lemma_le_trans(a: &Self, b: &Self, c: &Self) {
    }

    proof fn lemma_clamp_spec(v: Self, min: Self, max: Self) {
    }

    fn le(&self, other: &Self) -> (r: bool) {
        self.code() <= other.code()
    }

    fn eq_value(&self, other: &Self) -> (r: bool) {
        self.code() == other.code()
    }

    fn duplicate(&self) -> (r: Self) {
        *self
    }

    fn clamp(self, min: &Self, max: &Self) -> (r: Self) {
        if self.code() < min.code() {
            *min
        } else if max.code() < self.code() {
            *max
        } else {
            self
        }
    }
}

/// A control value together with its valid range and default.
///
/// The range is `None` when the device reported a degenerate range
/// (`min >= max`); every write then succeeds. With a range present, the
/// stored value and the default always lie inside it.
pub struct MinMaxValue<T> {
    range: Option<(T, T)>,
    default: T,
    value: T,
}

/// Ghost mirror of a [`MinMaxValue`]: its range, default and stored value.
pub struct MinMaxView<T> {
    /// The enforced range, `None` when the device's range was degenerate.
    pub range: Option<(T, T)>,
    /// The default value reported by the device.
    pub default: T,
    /// The currently stored value.
    pub value: T,
}

impl<T> View for MinMaxValue<T> {
    type V = MinMaxView<T>;

    closed spec fn view(&self) -> MinMaxView<T> {
        MinMaxView { range: self.range, default: self.default, value: self.value }
    }
}

/// The [`MinMaxValue`] a degenerate or well-ordered (min, max, default)
/// triple constructs, `None` when the default lies outside an enforced
/// range.
pub open spec fn spec_new_view<T: Clampable>(min: T, max: T, default: T) -> Option<MinMaxView<T>> {
    if max.le_spec(&min) {
        Some(MinMaxView { range: None, default, value: default })
    } else if min.le_spec(&default) && default.le_spec(&max) {
        Some(MinMaxView { range: Some((min, max)), default, value: default })
    } else {
        None
    }
}

impl<T: Clampable> MinMaxValue<T> {
    /// The enforced range, `None` when the device's range was degenerate.
    pub open spec fn spec_range(&self) -> Option<(T, T)> {
        self@.range
    }

    /// The default value reported by the device.
    pub open spec fn spec_default(&self) -> T {
        self@.default
    }

    /// The currently stored value.
    pub open spec fn spec_value(&self) -> T {
        self@.value
    }

    /// Well-formedness: if a range is enforced it is non-empty, and both the
    /// stored value and the default lie inside it.
    pub open spec fn wf(&self) -> bool {
        match self.spec_range() {
            Some(r) => r.0.le_spec(&r.1) && r.0.le_spec(&self.spec_value()) && self.spec_value().le_spec(
                &r.1,
            ) && r.0.le_spec(&self.spec_default()) && self.spec_default().le_spec(&r.1),
            None => true,
        }
    }

    /// Creates a new `MinMaxValue` out of a given min, max, and default.
    ///
    /// A degenerate range (`min >= max`) is stored as no range at all. An
    /// enforced range must contain the default, else construction fails.
    pub fn new(min: T, max: T, default: T) -> (r: Result<MinMaxValue<T>>)
        ensures
            (r is Ok) == (max.le_spec(&min) || (min.le_spec(&default) && default.le_spec(&max))),
            match r {
                Ok(m) => m.wf() && m.spec_default() == default && m.spec_value() == default && (
                if max.le_spec(&min) {
                    m.spec_range() is None
                } else {
                    m.spec_range() == Some((min, max))
                }),
                Err(e) => e == LibcameraError::InvalidControlValue,
            },
            (r is Ok) == (spec_new_view(min, max, default) is Some),
            r matches Ok(m) ==> Some(m@) == spec_new_view(min, max, default),
    {
        if max.le(&min) {
            let value = default.duplicate();
            Ok(MinMaxValue { range: None, default, value })
        } else if min.le(&default) && default.le(&max) {
            proof {
                T::lemma_le_trans(&min, &default, &max);
            }
            let value = default.duplicate();
            Ok(MinMaxValue { range: Some((min, max)), default, value })
        } else {
            Err(LibcameraError::InvalidControlValue)
        }
    }

    /// Retrieve the default value.
    pub fn get_default(&self) -> (r: &T)
        ensures
            *r == self.spec_default(),
    {
        &self.default
    }

    /// Retrieve the minimum value, `None` when no range is enforced.
    pub fn min(&self) -> (r: Option<&T>)
        ensures
            match (r, self.spec_range()) {
                (Some(v), Some(rg)) => *v == rg.0,
                (None, None) => true,
                _ => false,
            },
    {
        match &self.range {
            Some(rg) => Some(&rg.0),
            None => None,
        }
    }

    /// Retrieve the maximum value, `None` when no range is enforced.
    pub fn max(&self) -> (r: Option<&T>)
        ensures
            match (r, self.spec_range()) {
                (Some(v), Some(rg)) => *v == rg.1,
                (None, None) => true,
                _ => false,
            },
    {
        match &self.range {
            Some(rg) => Some(&rg.1),
            None => None,
        }
    }

    /// Gets the stored value. When a range is enforced and the value is
    /// well-formed, it lies within [`MinMaxValue::min`] and
    /// [`MinMaxValue::max`].
    pub fn get_value(&self) -> (r: &T)
        ensures
            *r == self.spec_value(),
    {
        &self.value
    }

    /// Gets the stored value if it differs from the default, `None` when the
    /// value still equals the default. Drives which controls are submitted
    /// with a capture request.
    pub fn get_value_if_changed(&self) -> (r: Option<&T>)
        ensures
            (r is Some) == !self.spec_value().eq_spec(&self.spec_default()),
            r matches Some(v) ==> *v == self.spec_value(),
    {
        if self.value.eq_value(&self.default) {
            None
        } else {
            Some(&self.value)
        }
    }

    /// Stores `value` if it lies within the acceptable range.
    ///
    /// Returns `true` when the value was stored; `false` when it lies outside
    /// the range, in which case the stored value is untouched.
    pub fn set_value(&mut self, value: T) -> (r: bool)
        requires
            old(self).wf(),
        ensures
            final(self).wf(),
            final(self).spec_range() == old(self).spec_range(),
            final(self).spec_default() == old(self).spec_default(),
            match old(self).spec_range() {
                Some(rg) => {
                    &&& r == (rg.0.le_spec(&value) && value.le_spec(&rg.1))
                    &&& final(self).spec_value() == (if r {
                        value
                    } else {
                        old(self).spec_value()
                    })
                },
                None => r && final(self).spec_value() == value,
            },
    {
        match &self.range {
            Some(rg) => {
                if rg.0.le(&value) && value.le(&rg.1) {
                    self.value = value;
                    true
                } else {
                    false
                }
            },
            None => {
                self.value = value;
                true
            },
        }
    }

    /// Stores `value`, clamped into the acceptable range. Always succeeds;
    /// with a range enforced the stored value always lands inside it.
    pub fn set_value_clamped(&mut self, value: T)
        requires
            old(self).wf(),
        ensures
            final(self).wf(),
            final(self).spec_range() == old(self).spec_range(),
            final(self).spec_default() == old(self).spec_default(),
            match old(self).spec_range() {
                Some(rg) => final(self).spec_value() == T::clamp_spec(value, rg.0, rg.1),
                None => final(self).spec_value() == value,
            },
    {
        match &self.range {
            Some(rg) => {
                proof {
                    T::lemma_clamp_spec(value, rg.0, rg.1);
                }
                self.value = value.clamp(&rg.0, &rg.1);
            },
            None => {
                self.value = value;
            },
        }
    }
}

/// A camera control value of a type only known at discovery time: one tag
/// per supported kind. Controls that miss the static schema are stored this
/// way, keyed by their numeric id.
pub enum CameraControlValue {
    /// A control carrying no value.
    NoValue,
    /// A boolean control, e.g. autoexposure enable.
    Bool(MinMaxValue<bool>),
    /// A single-byte control.
    Byte(MinMaxValue<u8>),
    /// A 32-bit integer control, e.g. exposure time.
    Integer32(MinMaxValue<i32>),
    /// A 64-bit integer control, e.g. frame duration limit.
    Integer64(MinMaxValue<i64>),
    /// A fractional control, e.g. brightness.
    Float(MinMaxValue<Fixed>),
    /// An array of fractional controls.
    FloatArray(Vec<MinMaxValue<Fixed>>),
    /// A string control.
    String(MinMaxValue<std::string::String>),
    /// A rectangle control.
    Rectangle(MinMaxValue<Rectangle>),
    /// A size control.
    Size(MinMaxValue<Size>),
}

/// Stores camera controls: the well-known ones as typed fields, everything
/// else in [`CameraControls::others`], keyed by numeric control id.
pub struct CameraControls {
    /// Autoexposure enable.
    pub ae_enable: Option<MinMaxValue<bool>>,
    /// Autoexposure metering mode.
    pub ae_metering_mode: Option<MinMaxValue<AeMeteringMode>>,
    /// Autoexposure constraint mode.
    pub ae_constraint_mode: Option<MinMaxValue<AeConstraintMode>>,
    /// Autoexposure mode.
    pub ae_exposure_mode: Option<MinMaxValue<AeExposureMode>>,
    /// Exposure value adjustment.
    pub exposure_value: Option<MinMaxValue<Fixed>>,
    /// Exposure time.
    pub exposure_time: Option<MinMaxValue<i32>>,
    /// Analogue signal gain.
    pub analogue_gain: Option<MinMaxValue<Fixed>>,
    /// Brightness.
    pub brightness: Option<MinMaxValue<Fixed>>,
    /// Contrast.
    pub contrast: Option<MinMaxValue<Fixed>>,
    /// Auto white balance enable.
    pub awb_enable: Option<MinMaxValue<bool>>,
    /// Auto white balance mode.
    pub awb_mode: Option<MinMaxValue<AwbMode>>,
    /// Red/blue colour gains.
    pub colour_gains: Option<MinMaxValue<FixedPair>>,
    /// Saturation.
    pub saturation: Option<MinMaxValue<Fixed>>,
    /// Sharpness.
    pub sharpness: Option<MinMaxValue<Fixed>>,
    /// Colour correction matrix coefficient.
    pub colour_correction_matrix: Option<MinMaxValue<Fixed>>,
    /// Scaler crop region.
    pub scaler_crop: Option<MinMaxValue<Rectangle>>,
    /// Frame duration limit.
    pub frame_duration_limits: Option<MinMaxValue<i64>>,
    /// Noise reduction mode.
    pub noise_reduction_mode: Option<MinMaxValue<i32>>,
    /// Controls unknown to the static schema: control id to display name
    /// and typed value, in discovery order.
    pub others: Vec<(u32, (std::string::String, CameraControlValue))>,
}

impl Default for CameraControls {
    /// An empty control set: nothing discovered yet.
    fn default() -> (r: CameraControls)
        ensures
            r.ae_enable is None,
            r.ae_metering_mode is None,
            r.ae_constraint_mode is None,
            r.ae_exposure_mode is None,
            r.exposure_value is None,
            r.exposure_time is None,
            r.analogue_gain is None,
            r.brightness is None,
            r.contrast is None,
            r.awb_enable is None,
            r.awb_mode is None,
            r.colour_gains is None,
            r.saturation is None,
            r.sharpness is None,
            r.colour_correction_matrix is None,
            r.scaler_crop is None,
            r.frame_duration_limits is None,
            r.noise_reduction_mode is None,
            r.others@.len() == 0,
    {
        CameraControls {
            ae_enable: None,
            ae_metering_mode: None,
            ae_constraint_mode: None,
            ae_exposure_mode: None,
            exposure_value: None,
            exposure_time: None,
            analogue_gain: None,
            brightness: None,
            contrast: None,
            awb_enable: None,
            awb_mode: None,
            colour_gains: None,
            saturation: None,
            sharpness: None,
            colour_correction_matrix: None,
            scaler_crop: None,
            frame_duration_limits: None,
            noise_reduction_mode: None,
            others: Vec::new(),
        }
    }
}


/// The runtime type a device declares for a control.
#[derive(Debug, Clone, Copy, PartialEq, Eq, Structural)]
pub enum CameraControlType {
    /// The control carries no value.
    NoValue,
    /// A boolean control.
    Bool,
    /// A single-byte control.
    Byte,
    /// A 32-bit integer control.
    Integer32,
    /// A 64-bit integer control.
    Integer64,
    /// A fractional control.
    Float,
    /// A string control.
    String,
    /// A rectangle control.
    Rectangle,
    /// A size control.
    Size,
}

/// One raw control value as the device reports or accepts it, converted to
/// plain values at the boundary (fractions as [`Fixed`]).
pub enum RawControlValue {
    /// No value.
    NoValue,
    /// A boolean value.
    Bool(bool),
    /// A byte value.
    Byte(u8),
    /// A 32-bit integer value.
    Integer32(i32),
    /// A 64-bit integer value.
    Integer64(i64),
    /// A fractional value.
    Float(Fixed),
    /// An array of fractional values.
    FloatArray(Vec<Fixed>),
    /// A string value.
    String(std::string::String),
    /// A rectangle value.
    Rectangle(Rectangle),
    /// A size value.
    Size(Size),
}

/// Ghost mirror of a [`RawControlValue`].
pub enum RawValueView {
    /// No value.
    NoValue,
    /// A boolean value.
    Bool(bool),
    /// A byte value.
    Byte(u8),
    /// A 32-bit integer value.
    Integer32(i32),
    /// A 64-bit integer value.
    Integer64(i64),
    /// A fractional value.
    Float(Fixed),
    /// An array of fractional values.
    FloatArray(Seq<Fixed>),
    /// A string value, as its characters.
    String(Seq<char>),
    /// A rectangle value.
    Rectangle(Rectangle),
    /// A size value.
    Size(Size),
}

impl View for RawControlValue {
    type V = RawValueView;

    open spec fn view(&self) -> RawValueView {
        match self {
            RawControlValue::NoValue => RawValueView::NoValue,
            RawControlValue::Bool(b) => RawValueView::Bool(*b),
            RawControlValue::Byte(b) => RawValueView::Byte(*b),
            RawControlValue::Integer32(v) => RawValueView::Integer32(*v),
            RawControlValue::Integer64(v) => RawValueView::Integer64(*v),
            RawControlValue::Float(f) => RawValueView::Float(*f),
            RawControlValue::FloatArray(a) => RawValueView::FloatArray(a@),
            RawControlValue::String(s) => RawValueView::String(s@),
            RawControlValue::Rectangle(r) => RawValueView::Rectangle(*r),
            RawControlValue::Size(s) => RawValueView::Size(*s),
        }
    }
}

/// The boolean a raw value converts to, if it holds one.
pub open spec fn spec_as_bool(v: RawControlValue) -> Option<bool> {
    match v {
        RawControlValue::Bool(b) => Some(b),
        _ => None,
    }
}

/// The byte a raw value converts to, if it holds one.
pub open spec fn spec_as_byte(v: RawControlValue) -> Option<u8> {
    match v {
        RawControlValue::Byte(b) => Some(b),
        _ => None,
    }
}

/// The 32-bit integer a raw value converts to, if it holds one.
pub open spec fn spec_as_i32(v: RawControlValue) -> Option<i32> {
    match v {
        RawControlValue::Integer32(i) => Some(i),
        _ => None,
    }
}

/// The 64-bit integer a raw value converts to, if it holds one.
pub open spec fn spec_as_i64(v: RawControlValue) -> Option<i64> {
    match v {
        RawControlValue::Integer64(i) => Some(i),
        _ => None,
    }
}

/// The fixed-point value a raw value converts to, if it holds one.
pub open spec fn spec_as_fixed(v: RawControlValue) -> Option<Fixed> {
    match v {
        RawControlValue::Float(f) => Some(f),
        _ => None,
    }
}

/// The pair a raw value converts to: a two-element array, or a scalar
/// repeated in both positions.
pub open spec fn spec_as_pair(v: RawControlValue) -> Option<FixedPair> {
    match v {
        RawControlValue::FloatArray(a) => if a@.len() == 2 {
            Some(FixedPair(a@[0], a@[1]))
        } else {
            None
        },
        RawControlValue::Float(f) => Some(FixedPair(f, f)),
        _ => None,
    }
}

/// The string a raw value converts to, if it holds one.
pub open spec fn spec_as_string(v: RawControlValue) -> Option<std::string::String> {
    match v {
        RawControlValue::String(s) => Some(s),
        _ => None,
    }
}

/// The rectangle a raw value converts to, if it holds one.
pub open spec fn spec_as_rectangle(v: RawControlValue) -> Option<Rectangle> {
    match v {
        RawControlValue::Rectangle(r) => Some(r),
        _ => None,
    }
}

/// The size a raw value converts to, if it holds one.
pub open spec fn spec_as_size(v: RawControlValue) -> Option<Size> {
    match v {
        RawControlValue::Size(s) => Some(s),
        _ => None,
    }
}

/// One control as the device describes it at discovery: its numeric id,
/// display name, declared runtime type, and the (min, max, default) triple.
pub struct ControlPair {
    /// The numeric control id.
    pub id: u32,
    /// The control's display name.
    pub name: std::string::String,
    /// The declared runtime type.
    pub control_type: CameraControlType,
    /// Whether the control's values are arrays.
    pub is_array: bool,
    /// The smallest acceptable value.
    pub min: RawControlValue,
    /// The largest acceptable value.
    pub max: RawControlValue,
    /// The default (and initial) value.
    pub value: RawControlValue,
}

/// Ghost mirror of a [`CameraControlValue`].
pub enum ControlValueView {
    /// A control carrying no value.
    NoValue,
    /// A boolean control.
    Bool(MinMaxView<bool>),
    /// A byte control.
    Byte(MinMaxView<u8>),
    /// A 32-bit integer control.
    Integer32(MinMaxView<i32>),
    /// A 64-bit integer control.
    Integer64(MinMaxView<i64>),
    /// A fractional control.
    Float(MinMaxView<Fixed>),
    /// An array of fractional controls.
    FloatArray(Seq<MinMaxView<Fixed>>),
    /// A string control.
    String(MinMaxView<std::string::String>),
    /// A rectangle control.
    Rectangle(MinMaxView<Rectangle>),
    /// A size control.
    Size(MinMaxView<Size>),
}

impl View for CameraControlValue {
    type V = ControlValueView;

    open spec fn view(&self) -> ControlValueView {
        match self {
            CameraControlValue::NoValue => ControlValueView::NoValue,
            CameraControlValue::Bool(m) => ControlValueView::Bool(m@),
            CameraControlValue::Byte(m) => ControlValueView::Byte(m@),
            CameraControlValue::Integer32(m) => ControlValueView::Integer32(m@),
            CameraControlValue::Integer64(m) => ControlValueView::Integer64(m@),
            CameraControlValue::Float(m) => ControlValueView::Float(m@),
            CameraControlValue::FloatArray(v) => ControlValueView::FloatArray(
                v@.map_values(|m: MinMaxValue<Fixed>| m@),
            ),
            CameraControlValue::String(m) => ControlValueView::String(m@),
            CameraControlValue::Rectangle(m) => ControlValueView::Rectangle(m@),
            CameraControlValue::Size(m) => ControlValueView::Size(m@),
        }
    }
}

/// Ghost view of an optional control field.
pub open spec fn spec_opt_view<T>(o: Option<MinMaxValue<T>>) -> Option<MinMaxView<T>> {
    match o {
        Some(m) => Some(m@),
        None => None,
    }
}

/// Ghost mirror of [`CameraControls`].
pub struct ControlsView {
    /// Autoexposure enable.
    pub ae_enable: Option<MinMaxView<bool>>,
    /// Autoexposure metering mode.
    pub ae_metering_mode: Option<MinMaxView<AeMeteringMode>>,
    /// Autoexposure constraint mode.
    pub ae_constraint_mode: Option<MinMaxView<AeConstraintMode>>,
    /// Autoexposure mode.
    pub ae_exposure_mode: Option<MinMaxView<AeExposureMode>>,
    /// Exposure value adjustment.
    pub exposure_value: Option<MinMaxView<Fixed>>,
    /// Exposure time.
    pub exposure_time: Option<MinMaxView<i32>>,
    /// Analogue signal gain.
    pub analogue_gain: Option<MinMaxView<Fixed>>,
    /// Brightness.
    pub brightness: Option<MinMaxView<Fixed>>,
    /// Contrast.
    pub contrast: Option<MinMaxView<Fixed>>,
    /// Auto white balance enable.
    pub awb_enable: Option<MinMaxView<bool>>,
    /// Auto white balance mode.
    pub awb_mode: Option<MinMaxView<AwbMode>>,
    /// Red/blue colour gains.
    pub colour_gains: Option<MinMaxView<FixedPair>>,
    /// Saturation.
    pub saturation: Option<MinMaxView<Fixed>>,
    /// Sharpness.
    pub sharpness: Option<MinMaxView<Fixed>>,
    /// Colour correction matrix coefficient.
    pub colour_correction_matrix: Option<MinMaxView<Fixed>>,
    /// Scaler crop region.
    pub scaler_crop: Option<MinMaxView<Rectangle>>,
    /// Frame duration limit.
    pub frame_duration_limits: Option<MinMaxView<i64>>,
    /// Noise reduction mode.
    pub noise_reduction_mode: Option<MinMaxView<i32>>,
    /// Controls unknown to the static schema, in discovery order.
    pub others: Seq<(u32, (Seq<char>, ControlValueView))>,
}

impl View for CameraControls {
    type V = ControlsView;

    open spec fn view(&self) -> ControlsView {
        ControlsView {
            ae_enable: spec_opt_view(self.ae_enable),
            ae_metering_mode: spec_opt_view(self.ae_metering_mode),
            ae_constraint_mode: spec_opt_view(self.ae_constraint_mode),
            ae_exposure_mode: spec_opt_view(self.ae_exposure_mode),
            exposure_value: spec_opt_view(self.exposure_value),
            exposure_time: spec_opt_view(self.exposure_time),
            analogue_gain: spec_opt_view(self.analogue_gain),
            brightness: spec_opt_view(self.brightness),
            contrast: spec_opt_view(self.contrast),
            awb_enable: spec_opt_view(self.awb_enable),
            awb_mode: spec_opt_view(self.awb_mode),
            colour_gains: spec_opt_view(self.colour_gains),
            saturation: spec_opt_view(self.saturation),
            sharpness: spec_opt_view(self.sharpness),
            colour_correction_matrix: spec_opt_view(self.colour_correction_matrix),
            scaler_crop: spec_opt_view(self.scaler_crop),
            frame_duration_limits: spec_opt_view(self.frame_duration_limits),
            noise_reduction_mode: spec_opt_view(self.noise_reduction_mode),
            others: self.others@.map_values(
                |e: (u32, (std::string::String, CameraControlValue))| (e.0, (e.1.0@, e.1.1@)),
            ),
        }
    }
}

/// The control set before anything was discovered.
pub open spec fn spec_empty_controls() -> ControlsView {
    ControlsView {
        ae_enable: None,
        ae_metering_mode: None,
        ae_constraint_mode: None,
        ae_exposure_mode: None,
        exposure_value: None,
        exposure_time: None,
        analogue_gain: None,
        brightness: None,
        contrast: None,
        awb_enable: None,
        awb_mode: None,
        colour_gains: None,
        saturation: None,
        sharpness: None,
        colour_correction_matrix: None,
        scaler_crop: None,
        frame_duration_limits: None,
        noise_reduction_mode: None,
        others: Seq::empty(),
    }
}


/// The `MinMaxValue` view a converted (min, max, default) triple builds,
/// `None` when a conversion or the construction fails.
pub open spec fn spec_minmax_of<T: Clampable>(
    min: Option<T>,
    max: Option<T>,
    default: Option<T>,
) -> Option<MinMaxView<T>> {
    match (min, max, default) {
        (Some(a), Some(b), Some(d)) => spec_new_view(a, b, d),
        _ => None,
    }
}

/// The metering mode a raw value converts to, if it holds its code.
pub open spec fn spec_as_metering(v: RawControlValue) -> Option<AeMeteringMode> {
    match spec_as_i32(v) {
        Some(i) => AeMeteringMode::spec_from_code(i),
        None => None,
    }
}

/// The constraint mode a raw value converts to, if it holds its code.
pub open spec fn spec_as_constraint(v: RawControlValue) -> Option<AeConstraintMode> {
    match spec_as_i32(v) {
        Some(i) => AeConstraintMode::spec_from_code(i),
        None => None,
    }
}

/// The exposure mode a raw value converts to, if it holds its code.
pub open spec fn spec_as_exposure(v: RawControlValue) -> Option<AeExposureMode> {
    match spec_as_i32(v) {
        Some(i) => AeExposureMode::spec_from_code(i),
        None => None,
    }
}

/// The white balance mode a raw value converts to, if it holds its code.
pub open spec fn spec_as_awb(v: RawControlValue) -> Option<AwbMode> {
    match spec_as_i32(v) {
        Some(i) => AwbMode::spec_from_code(i),
        None => None,
    }
}

/// The element-wise `MinMaxValue` views of three equal-length fixed-point
/// arrays, `None` as soon as one element's construction fails.
pub open spec fn spec_fixed_array(
    mins: Seq<Fixed>,
    maxs: Seq<Fixed>,
    vals: Seq<Fixed>,
    n: int,
) -> Option<Seq<MinMaxView<Fixed>>>
    decreases n,
{
    if n <= 0 {
        Some(Seq::empty())
    } else {
        match spec_fixed_array(mins, maxs, vals, n - 1) {
            Some(prefix) => match spec_new_view(mins[n - 1], maxs[n - 1], vals[n - 1]) {
                Some(m) => Some(prefix.push(m)),
                None => None,
            },
            None => None,
        }
    }
}

/// Where a discovered control's data lands when its name misses the
/// well-known table (or its conversion to the well-known type failed): a
/// typed generic value chosen by the declared runtime type, or `None` when
/// that type cannot be represented and the control is dropped.
pub open spec fn spec_generic_value(p: ControlPair) -> Option<ControlValueView> {
    if p.is_array {
        match (p.control_type, p.min, p.max, p.value) {
            (
                CameraControlType::Float,
                RawControlValue::FloatArray(a),
                RawControlValue::FloatArray(b),
                RawControlValue::FloatArray(c),
            ) => if a@.len() == b@.len() && b@.len() == c@.len() {
                match spec_fixed_array(a@, b@, c@, a@.len() as int) {
                    Some(s) => Some(ControlValueView::FloatArray(s)),
                    None => None,
                }
            } else {
                None
            },
            _ => None,
        }
    } else {
        match p.control_type {
            CameraControlType::NoValue => Some(ControlValueView::NoValue),
            CameraControlType::Bool => match spec_minmax_of(
                spec_as_bool(p.min),
                spec_as_bool(p.max),
                spec_as_bool(p.value),
            ) {
                Some(m) => Some(ControlValueView::Bool(m)),
                None => None,
            },
            CameraControlType::Byte => match spec_minmax_of(
                spec_as_byte(p.min),
                spec_as_byte(p.max),
                spec_as_byte(p.value),
            ) {
                Some(m) => Some(ControlValueView::Byte(m)),
                None => None,
            },
            CameraControlType::Integer32 => match spec_minmax_of(
                spec_as_i32(p.min),
                spec_as_i32(p.max),
                spec_as_i32(p.value),
            ) {
                Some(m) => Some(ControlValueView::Integer32(m)),
                None => None,
            },
            CameraControlType::Integer64 => match spec_minmax_of(
                spec_as_i64(p.min),
                spec_as_i64(p.max),
                spec_as_i64(p.value),
            ) {
                Some(m) => Some(ControlValueView::Integer64(m)),
                None => None,
            },
            CameraControlType::Float => match spec_minmax_of(
                spec_as_fixed(p.min),
                spec_as_fixed(p.max),
                spec_as_fixed(p.value),
            ) {
                Some(m) => Some(ControlValueView::Float(m)),
                None => None,
            },
            CameraControlType::String => match spec_minmax_of(
                spec_as_string(p.min),
                spec_as_string(p.max),
                spec_as_string(p.value),
            ) {
                Some(m) => Some(ControlValueView::String(m)),
                None => None,
            },
            CameraControlType::Rectangle => match spec_minmax_of(
                spec_as_rectangle(p.min),
                spec_as_rectangle(p.max),
                spec_as_rectangle(p.value),
            ) {
                Some(m) => Some(ControlValueView::Rectangle(m)),
                None => None,
            },
            CameraControlType::Size => match spec_minmax_of(
                spec_as_size(p.min),
                spec_as_size(p.max),
                spec_as_size(p.value),
            ) {
                Some(m) => Some(ControlValueView::Size(m)),
                None => None,
            },
        }
    }
}

/// The control set after one discovered control is classified against the
/// well-known table: a matching name whose conversion succeeds fills the
/// dedicated field, otherwise the control falls to the generic bucket.
pub open spec fn spec_known_update(c: ControlsView, p: ControlPair) -> Option<ControlsView> {
    let n = p.name@;
    if n == "AeEnable"@ {
        match spec_minmax_of(spec_as_bool(p.min), spec_as_bool(p.max), spec_as_bool(p.value)) {
            Some(m) => Some(ControlsView { ae_enable: Some(m), ..c }),
            None => None,
        }
    } else if n == "AeMeteringMode"@ {
        match spec_minmax_of(
            spec_as_metering(p.min),
            spec_as_metering(p.max),
            spec_as_metering(p.value),
        ) {
            Some(m) => Some(ControlsView { ae_metering_mode: Some(m), ..c }),
            None => None,
        }
    } else if n == "AeConstraintMode"@ {
        match spec_minmax_of(
            spec_as_constraint(p.min),
            spec_as_constraint(p.max),
            spec_as_constraint(p.value),
        ) {
            Some(m) => Some(ControlsView { ae_constraint_mode: Some(m), ..c }),
            None => None,
        }
    } else if n == "AeExposureMode"@ {
        match spec_minmax_of(
            spec_as_exposure(p.min),
            spec_as_exposure(p.max),
            spec_as_exposure(p.value),
        ) {
            Some(m) => Some(ControlsView { ae_exposure_mode: Some(m), ..c }),
            None => None,
        }
    } else if n == "ExposureValue"@ {
        match spec_minmax_of(spec_as_fixed(p.min), spec_as_fixed(p.max), spec_as_fixed(p.value)) {
            Some(m) => Some(ControlsView { exposure_value: Some(m), ..c }),
            None => None,
        }
    } else if n == "ExposureTime"@ {
        match spec_minmax_of(spec_as_i32(p.min), spec_as_i32(p.max), spec_as_i32(p.value)) {
            Some(m) => Some(ControlsView { exposure_time: Some(m), ..c }),
            None => None,
        }
    } else if n == "AnalogueGain"@ {
        match spec_minmax_of(spec_as_fixed(p.min), spec_as_fixed(p.max), spec_as_fixed(p.value)) {
            Some(m) => Some(ControlsView { analogue_gain: Some(m), ..c }),
            None => None,
        }
    } else if n == "Brightness"@ {
        match spec_minmax_of(spec_as_fixed(p.min), spec_as_fixed(p.max), spec_as_fixed(p.value)) {
            Some(m) => Some(ControlsView { brightness: Some(m), ..c }),
            None => None,
        }
    } else if n == "Contrast"@ {
        match spec_minmax_of(spec_as_fixed(p.min), spec_as_fixed(p.max), spec_as_fixed(p.value)) {
            Some(m) => Some(ControlsView { contrast: Some(m), ..c }),
            None => None,
        }
    } else if n == "AwbEnable"@ {
        match spec_minmax_of(spec_as_bool(p.min), spec_as_bool(p.max), spec_as_bool(p.value)) {
            Some(m) => Some(ControlsView { awb_enable: Some(m), ..c }),
            None => None,
        }
    } else if n == "AwbMode"@ {
        match spec_minmax_of(spec_as_awb(p.min), spec_as_awb(p.max), spec_as_awb(p.value)) {
            Some(m) => Some(ControlsView { awb_mode: Some(m), ..c }),
            None => None,
        }
    } else if n == "ColourGains"@ {
        match spec_minmax_of(spec_as_pair(p.min), spec_as_pair(p.max), spec_as_pair(p.value)) {
            Some(m) => Some(ControlsView { colour_gains: Some(m), ..c }),
            None => None,
        }
    } else if n == "Saturation"@ {
        match spec_minmax_of(spec_as_fixed(p.min), spec_as_fixed(p.max), spec_as_fixed(p.value)) {
            Some(m) => Some(ControlsView { saturation: Some(m), ..c }),
            None => None,
        }
    } else if n == "Sharpness"@ {
        match spec_minmax_of(spec_as_fixed(p.min), spec_as_fixed(p.max), spec_as_fixed(p.value)) {
            Some(m) => Some(ControlsView { sharpness: Some(m), ..c }),
            None => None,
        }
    } else if n == "ColourCorrectionMatrix"@ {
        match spec_minmax_of(spec_as_fixed(p.min), spec_as_fixed(p.max), spec_as_fixed(p.value)) {
            Some(m) => Some(ControlsView { colour_correction_matrix: Some(m), ..c }),
            None => None,
        }
    } else if n == "FrameDurationLimits"@ {
        match spec_minmax_of(spec_as_i64(p.min), spec_as_i64(p.max), spec_as_i64(p.value)) {
            Some(m) => Some(ControlsView { frame_duration_limits: Some(m), ..c }),
            None => None,
        }
    } else if n == "NoiseReductionMode"@ {
        match spec_minmax_of(spec_as_i32(p.min), spec_as_i32(p.max), spec_as_i32(p.value)) {
            Some(m) => Some(ControlsView { noise_reduction_mode: Some(m), ..c }),
            None => None,
        }
    } else {
        None
    }
}

/// The control set after one discovered control is classified: the
/// well-known field when the name matches and converts, a generic entry
/// keyed by id otherwise, and no change at all for a control whose type
/// cannot be represented.
pub open spec fn spec_classify_pair(c: ControlsView, p: ControlPair) -> ControlsView {
    match spec_known_update(c, p) {
        Some(nc) => nc,
        None => match spec_generic_value(p) {
            Some(v) => ControlsView { others: c.others.push((p.id, (p.name@, v))), ..c },
            None => c,
        },
    }
}

/// The control set after the first `n` discovered controls are classified,
/// in discovery order.
pub open spec fn spec_classify(c: ControlsView, list: Seq<ControlPair>, n: int) -> ControlsView
    decreases n,
{
    if n <= 0 {
        c
    } else {
        spec_classify_pair(spec_classify(c, list, n - 1), list[n - 1])
    }
}


impl RawControlValue {

    /// Converts to a `bool`, when this raw value holds one.
    pub fn as_bool(&self) -> (r: Option<bool>)
        ensures
            r == spec_as_bool(*self),
    {
        match self {
            RawControlValue::Bool(b) => Some(*b),
            _ => None,
        }
    }

    /// Converts to a `u8`, when this raw value holds one.
    pub fn as_byte(&self) -> (r: Option<u8>)
        ensures
            r == spec_as_byte(*self),
    {
        match self {
            RawControlValue::Byte(b) => Some(*b),
            _ => None,
        }
    }

    /// Converts to a `i32`, when this raw value holds one.
    pub fn as_i32(&self) -> (r: Option<i32>)
        ensures
            r == spec_as_i32(*self),
    {
        match self {
            RawControlValue::Integer32(i) => Some(*i),
            _ => None,
        }
    }

    /// Converts to a `i64`, when this raw value holds one.
    pub fn as_i64(&self) -> (r: Option<i64>)
        ensures
            r == spec_as_i64(*self),
    {
        match self {
            RawControlValue::Integer64(i) => Some(*i),
            _ => None,
        }
    }

    /// Converts to a `Fixed`, when this raw value holds one.
    pub fn as_fixed(&self) -> (r: Option<Fixed>)
        ensures
            r == spec_as_fixed(*self),
    {
        match self {
            RawControlValue::Float(f) => Some(*f),
            _ => None,
        }
    }

    /// Converts to a `Rectangle`, when this raw value holds one.
    pub fn as_rectangle(&self) -> (r: Option<Rectangle>)
        ensures
            r == spec_as_rectangle(*self),
    {
        match self {
            RawControlValue::Rectangle(r) => Some(*r),
            _ => None,
        }
    }

    /// Converts to a `Size`, when this raw value holds one.
    pub fn as_size(&self) -> (r: Option<Size>)
        ensures
            r == spec_as_size(*self),
    {
        match self {
            RawControlValue::Size(s) => Some(*s),
            _ => None,
        }
    }

    /// Converts to a pair: a two-element array, or a scalar repeated.
    pub fn as_pair(&self) -> (r: Option<FixedPair>)
        ensures
            r == spec_as_pair(*self),
    {
        match self {
            RawControlValue::FloatArray(a) => if a.len() == 2 {
                Some(FixedPair(a[0], a[1]))
            } else {
                None
            },
            RawControlValue::Float(f) => Some(FixedPair(*f, *f)),
            _ => None,
        }
    }

    /// Converts to a string, when this raw value holds one.
    pub fn as_string(&self) -> (r: Option<std::string::String>)
        ensures
            r == spec_as_string(*self),
    {
        match self {
            RawControlValue::String(s) => Some(s.clone()),
            _ => None,
        }
    }

    /// Converts to a metering mode, when this raw value holds its code.
    pub fn as_metering(&self) -> (r: Option<AeMeteringMode>)
        ensures
            r == spec_as_metering(*self),
    {
        match self.as_i32() {
            Some(i) => match AeMeteringMode::from_code(i) {
                Ok(m) => Some(m),
                Err(_) => None,
            },
            None => None,
        }
    }

    /// Converts to a constraint mode, when this raw value holds its code.
    pub fn as_constraint(&self) -> (r: Option<AeConstraintMode>)
        ensures
            r == spec_as_constraint(*self),
    {
        match self.as_i32() {
            Some(i) => match AeConstraintMode::from_code(i) {
                Ok(m) => Some(m),
                Err(_) => None,
            },
            None => None,
        }
    }

    /// Converts to an exposure mode, when this raw value holds its code.
    pub fn as_exposure(&self) -> (r: Option<AeExposureMode>)
        ensures
            r == spec_as_exposure(*self),
    {
        match self.as_i32() {
            Some(i) => match AeExposureMode::from_code(i) {
                Ok(m) => Some(m),
                Err(_) => None,
            },
            None => None,
        }
    }

    /// Converts to a white balance mode, when this raw value holds its code.
    pub fn as_awb(&self) -> (r: Option<AwbMode>)
        ensures
            r == spec_as_awb(*self),
    {
        match self.as_i32() {
            Some(i) => match AwbMode::from_code(i) {
                Ok(m) => Some(m),
                Err(_) => None,
            },
            None => None,
        }
    }
}

/// Builds a range-checked value from three converted raw values, `None`
/// when a conversion or the construction fails.
fn minmax_from<T: Clampable>(min: Option<T>, max: Option<T>, value: Option<T>) -> (r: Option<
    MinMaxValue<T>,
>)
    ensures
        match (r, spec_minmax_of(min, max, value)) {
            (Some(m), Some(v)) => m@ == v && m.wf(),
            (None, None) => true,
            _ => false,
        },
{
    let a = match min {
        Some(x) => x,
        None => {
            return None;
        },
    };
    let b = match max {
        Some(x) => x,
        None => {
            return None;
        },
    };
    let d = match value {
        Some(x) => x,
        None => {
            return None;
        },
    };
    match MinMaxValue::new(a, b, d) {
        Ok(m) => Some(m),
        Err(_) => None,
    }
}

/// Builds element-wise range-checked values from three fixed-point arrays,
/// `None` when the lengths differ or an element's construction fails.
fn minmax_fixed_array(mins: &Vec<Fixed>, maxs: &Vec<Fixed>, vals: &Vec<Fixed>) -> (r: Option<
    Vec<MinMaxValue<Fixed>>,
>)
    ensures
        mins@.len() != maxs@.len() || maxs@.len() != vals@.len() ==> r is None,
        mins@.len() == maxs@.len() && maxs@.len() == vals@.len() ==> match (
        r,
        spec_fixed_array(mins@, maxs@, vals@, mins@.len() as int),
        ) {
            (Some(v), Some(s)) => v@.map_values(|m: MinMaxValue<Fixed>| m@) == s,
            (None, None) => true,
            _ => false,
        },
{
    if mins.len() != maxs.len() || maxs.len() != vals.len() {
        return None;
    }
    let n = mins.len();
    let mut out: Vec<MinMaxValue<Fixed>> = Vec::new();
    let mut k: usize = 0;
    while k < n
        invariant
            0 <= k <= n,
            n == mins@.len() && n == maxs@.len() && n == vals@.len(),
            spec_fixed_array(mins@, maxs@, vals@, k as int) matches Some(s) && out@.map_values(
                |m: MinMaxValue<Fixed>| m@,
            ) == s,
        decreases n - k,
    {
        match MinMaxValue::new(mins[k], maxs[k], vals[k]) {
            Ok(m) => {
                out.push(m);
                proof {
                    assert(out@.map_values(|m: MinMaxValue<Fixed>| m@) =~= spec_fixed_array(
                        mins@,
                        maxs@,
                        vals@,
                        k as int + 1,
                    )->Some_0);
                }
            },
            Err(_) => {
                proof {
                    assert(spec_fixed_array(mins@, maxs@, vals@, k as int + 1) is None);
                    lemma_fixed_array_none(mins@, maxs@, vals@, k as int + 1, mins@.len() as int);
                }
                return None;
            },
        }
        k = k + 1;
    }
    Some(out)
}

/// Once one element of a fixed-point array fails to build, the whole array
/// fails.
proof fn lemma_fixed_array_none(mins: Seq<Fixed>, maxs: Seq<Fixed>, vals: Seq<Fixed>, k: int, n: int)
    requires
        0 <= k <= n,
        spec_fixed_array(mins, maxs, vals, k) is None,
    ensures
        spec_fixed_array(mins, maxs, vals, n) is None,
    decreases n - k,
{
    if k < n {
        lemma_fixed_array_none(mins, maxs, vals, k + 1, n);
    }
}

/// Whether `name` spells the same characters as `lit`.
fn name_is(name: &std::string::String, lit: &str) -> (r: bool)
    ensures
        r == (name@ == lit@),
{
    name.eq(&lit.to_owned())
}


impl CameraControls {
    /// Appends one control to the generic bucket.
    fn push_other(&mut self, id: u32, name: std::string::String, value: CameraControlValue)
        ensures
            final(self)@ == (ControlsView {
                others: old(self)@.others.push((id, (name@, value@))),
                ..old(self)@
            }),
    {
        let ghost pre = self@;
        self.others.push((id, (name, value)));
        proof {
            assert(self@.others =~~= pre.others.push((id, (name@, value@))));
        }
    }

    /// Stores one discovered control in the generic bucket, keyed by its
    /// numeric id and typed by its declared runtime type; a control whose
    /// type cannot be represented is dropped.
    fn classify_generic(&mut self, pair: ControlPair)
        ensures
            final(self)@ == (match spec_generic_value(pair) {
                Some(v) => ControlsView {
                    others: old(self)@.others.push((pair.id, (pair.name@, v))),
                    ..old(self)@
                },
                None => old(self)@,
            }),
    {
        let ControlPair { id, name, control_type, is_array, min, max, value } = pair;
        if is_array {
            match (control_type, &min, &max, &value) {
                (
                    CameraControlType::Float,
                    RawControlValue::FloatArray(a),
                    RawControlValue::FloatArray(b),
                    RawControlValue::FloatArray(c),
                ) => {
                    match minmax_fixed_array(a, b, c) {
                        Some(v) => {
                            self.push_other(id, name, CameraControlValue::FloatArray(v));
                        },
                        None => {},
                    }
                },
                _ => {},
            }
        } else {
            match control_type {
                CameraControlType::NoValue => {
                    self.push_other(id, name, CameraControlValue::NoValue);
                },
                CameraControlType::Bool => {
                    match minmax_from(min.as_bool(), max.as_bool(), value.as_bool()) {
                        Some(m) => {
                            self.push_other(id, name, CameraControlValue::Bool(m));
                        },
                        None => {},
                    }
                },
                CameraControlType::Byte => {
                    match minmax_from(min.as_byte(), max.as_byte(), value.as_byte()) {
                        Some(m) => {
                            self.push_other(id, name, CameraControlValue::Byte(m));
                        },
                        None => {},
                    }
                },
                CameraControlType::Integer32 => {
                    match minmax_from(min.as_i32(), max.as_i32(), value.as_i32()) {
                        Some(m) => {
                            self.push_other(id, name, CameraControlValue::Integer32(m));
                        },
                        None => {},
                    }
                },
                CameraControlType::Integer64 => {
                    match minmax_from(min.as_i64(), max.as_i64(), value.as_i64()) {
                        Some(m) => {
                            self.push_other(id, name, CameraControlValue::Integer64(m));
                        },
                        None => {},
                    }
                },
                CameraControlType::Float => {
                    match minmax_from(min.as_fixed(), max.as_fixed(), value.as_fixed()) {
                        Some(m) => {
                            self.push_other(id, name, CameraControlValue::Float(m));
                        },
                        None => {},
                    }
                },
                CameraControlType::String => {
                    match minmax_from(min.as_string(), max.as_string(), value.as_string()) {
                        Some(m) => {
                            self.push_other(id, name, CameraControlValue::String(m));
                        },
                        None => {},
                    }
                },
                CameraControlType::Rectangle => {
                    match minmax_from(min.as_rectangle(), max.as_rectangle(), value.as_rectangle()) {
                        Some(m) => {
                            self.push_other(id, name, CameraControlValue::Rectangle(m));
                        },
                        None => {},
                    }
                },
                CameraControlType::Size => {
                    match minmax_from(min.as_size(), max.as_size(), value.as_size()) {
                        Some(m) => {
                            self.push_other(id, name, CameraControlValue::Size(m));
                        },
                        None => {},
                    }
                },
            }
        }
    }

    /// Bridges the device's discovered control list into a typed control
    /// set: every control whose name matches the well-known table and whose
    /// values convert to the expected type fills its dedicated field;
    /// everything else lands in the generic bucket typed by its declared
    /// runtime type, or is dropped when that type cannot be represented.
    pub fn classify_control(&mut self, pair: ControlPair)
        ensures
            final(self)@ == spec_classify_pair(old(self)@, pair),
    {
        if name_is(&pair.name, "AeEnable") {
            match minmax_from(pair.min.as_bool(), pair.max.as_bool(), pair.value.as_bool()) {
                Some(m) => {
                    self.ae_enable = Some(m);
                    return;
                },
                None => {
                    self.classify_generic(pair);
                    return;
                },
            }
        }
        if name_is(&pair.name, "AeMeteringMode") {
            match minmax_from(pair.min.as_metering(), pair.max.as_metering(), pair.value.as_metering()) {
                Some(m) => {
                    self.ae_metering_mode = Some(m);
                    return;
                },
                None => {
                    self.classify_generic(pair);
                    return;
                },
            }
        }
        if name_is(&pair.name, "AeConstraintMode") {
            match minmax_from(pair.min.as_constraint(), pair.max.as_constraint(), pair.value.as_constraint()) {
                Some(m) => {
                    self.ae_constraint_mode = Some(m);
                    return;
                },
                None => {
                    self.classify_generic(pair);
                    return;
                },
            }
        }
        if name_is(&pair.name, "AeExposureMode") {
            match minmax_from(pair.min.as_exposure(), pair.max.as_exposure(), pair.value.as_exposure()) {
                Some(m) => {
                    self.ae_exposure_mode = Some(m);
                    return;
                },
                None => {
                    self.classify_generic(pair);
                    return;
                },
            }
        }
        if name_is(&pair.name, "ExposureValue") {
            match minmax_from(pair.min.as_fixed(), pair.max.as_fixed(), pair.value.as_fixed()) {
                Some(m) => {
                    self.exposure_value = Some(m);
                    return;
                },
                None => {
                    self.classify_generic(pair);
                    return;
                },
            }
        }
        if name_is(&pair.name, "ExposureTime") {
            match minmax_from(pair.min.as_i32(), pair.max.as_i32(), pair.value.as_i32()) {
                Some(m) => {
                    self.exposure_time = Some(m);
                    return;
                },
                None => {
                    self.classify_generic(pair);
                    return;
                },
            }
        }
        if name_is(&pair.name, "AnalogueGain") {
            match minmax_from(pair.min.as_fixed(), pair.max.as_fixed(), pair.value.as_fixed()) {
                Some(m) => {
                    self.analogue_gain = Some(m);
                    return;
                },
                None => {
                    self.classify_generic(pair);
                    return;
                },
            }
        }
        if name_is(&pair.name, "Brightness") {
            match minmax_from(pair.min.as_fixed(), pair.max.as_fixed(), pair.value.as_fixed()) {
                Some(m) => {
                    self.brightness = Some(m);
                    return;
                },
                None => {
                    self.classify_generic(pair);
                    return;
                },
            }
        }
        if name_is(&pair.name, "Contrast") {
            match minmax_from(pair.min.as_fixed(), pair.max.as_fixed(), pair.value.as_fixed()) {
                Some(m) => {
                    self.contrast = Some(m);
                    return;
                },
                None => {
                    self.classify_generic(pair);
                    return;
                },
            }
        }
        if name_is(&pair.name, "AwbEnable") {
            match minmax_from(pair.min.as_bool(), pair.max.as_bool(), pair.value.as_bool()) {
                Some(m) => {
                    self.awb_enable = Some(m);
                    return;
                },
                None => {
                    self.classify_generic(pair);
                    return;
                },
            }
        }
        if name_is(&pair.name, "AwbMode") {
            match minmax_from(pair.min.as_awb(), pair.max.as_awb(), pair.value.as_awb()) {
                Some(m) => {
                    self.awb_mode = Some(m);
                    return;
                },
                None => {
                    self.classify_generic(pair);
                    return;
                },
            }
        }
        if name_is(&pair.name, "ColourGains") {
            match minmax_from(pair.min.as_pair(), pair.max.as_pair(), pair.value.as_pair()) {
                Some(m) => {
                    self.colour_gains = Some(m);
                    return;
                },
                None => {
                    self.classify_generic(pair);
                    return;
                },
            }
        }
        if name_is(&pair.name, "Saturation") {
            match minmax_from(pair.min.as_fixed(), pair.max.as_fixed(), pair.value.as_fixed()) {
                Some(m) => {
                    self.saturation = Some(m);
                    return;
                },
                None => {
                    self.classify_generic(pair);
                    return;
                },
            }
        }
        if name_is(&pair.name, "Sharpness") {
            match minmax_from(pair.min.as_fixed(), pair.max.as_fixed(), pair.value.as_fixed()) {
                Some(m) => {
                    self.sharpness = Some(m);
                    return;
                },
                None => {
                    self.classify_generic(pair);
                    return;
                },
            }
        }
        if name_is(&pair.name, "ColourCorrectionMatrix") {
            match minmax_from(pair.min.as_fixed(), pair.max.as_fixed(), pair.value.as_fixed()) {
                Some(m) => {
                    self.colour_correction_matrix = Some(m);
                    return;
                },
                None => {
                    self.classify_generic(pair);
                    return;
                },
            }
        }
        if name_is(&pair.name, "FrameDurationLimits") {
            match minmax_from(pair.min.as_i64(), pair.max.as_i64(), pair.value.as_i64()) {
                Some(m) => {
                    self.frame_duration_limits = Some(m);
                    return;
                },
                None => {
                    self.classify_generic(pair);
                    return;
                },
            }
        }
        if name_is(&pair.name, "NoiseReductionMode") {
            match minmax_from(pair.min.as_i32(), pair.max.as_i32(), pair.value.as_i32()) {
                Some(m) => {
                    self.noise_reduction_mode = Some(m);
                    return;
                },
                None => {
                    self.classify_generic(pair);
                    return;
                },
            }
        }
        self.classify_generic(pair);
    }

    /// Builds the control set from the device's discovered control list,
    /// classifying each control in discovery order.
    pub fn from_libcamera(control_list: Vec<ControlPair>) -> (r: CameraControls)
        ensures
            r@ == spec_classify(
                spec_empty_controls(),
                control_list@,
                control_list@.len() as int,
            ),
    {
        let ghost glist = control_list@;
        let mut list = control_list;
        let mut controls = CameraControls::default();
        proof {
            assert(controls@.others =~= spec_empty_controls().others);
            assert(controls@ == spec_empty_controls());
        }
        let n = list.len();
        let mut i: usize = 0;
        while i < n
            invariant
                0 <= i <= n,
                n == glist.len(),
                list@ == glist.skip(i as int),
                controls@ == spec_classify(spec_empty_controls(), glist, i as int),
            decreases n - i,
        {
            let pair = list.remove(0);
            proof {
                assert(pair == glist[i as int]);
                assert(list@ =~= glist.skip(i as int + 1));
            }
            controls.classify_control(pair);
            i = i + 1;
        }
        controls
    }
}


/// A control's stored value differs from its default, so it must be
/// transmitted with the next capture request.
pub open spec fn spec_changed<T: Clampable>(m: MinMaxView<T>) -> bool {
    !m.value.eq_spec(&m.default)
}

/// The submission entries one well-known control field contributes: its id
/// and encoded current value when the value changed from the default,
/// nothing otherwise.
pub open spec fn spec_field_entries<T: Clampable>(
    f: Option<MinMaxView<T>>,
    id: u32,
    enc: spec_fn(T) -> RawValueView,
) -> Seq<(u32, RawValueView)> {
    match f {
        Some(m) => if spec_changed(m) {
            seq![(id, enc(m.value))]
        } else {
            Seq::empty()
        },
        None => Seq::empty(),
    }
}

/// The submission entries one generic-bucket control contributes: its id
/// and current value when the value changed from the default, nothing
/// otherwise.
pub open spec fn spec_other_entry(e: (u32, (Seq<char>, ControlValueView))) -> Seq<
    (u32, RawValueView),
> {
    match e.1.1 {
        ControlValueView::NoValue => Seq::empty(),
        ControlValueView::Bool(m) => if spec_changed(m) {
            seq![(e.0, RawValueView::Bool(m.value))]
        } else {
            Seq::empty()
        },
        ControlValueView::Byte(m) => if spec_changed(m) {
            seq![(e.0, RawValueView::Byte(m.value))]
        } else {
            Seq::empty()
        },
        ControlValueView::Integer32(m) => if spec_changed(m) {
            seq![(e.0, RawValueView::Integer32(m.value))]
        } else {
            Seq::empty()
        },
        ControlValueView::Integer64(m) => if spec_changed(m) {
            seq![(e.0, RawValueView::Integer64(m.value))]
        } else {
            Seq::empty()
        },
        ControlValueView::Float(m) => if spec_changed(m) {
            seq![(e.0, RawValueView::Float(m.value))]
        } else {
            Seq::empty()
        },
        ControlValueView::FloatArray(arr) => {
            let vals = arr.map_values(|m: MinMaxView<Fixed>| m.value);
            let defs = arr.map_values(|m: MinMaxView<Fixed>| m.default);
            if vals != defs {
                seq![(e.0, RawValueView::FloatArray(vals))]
            } else {
                Seq::empty()
            }
        },
        ControlValueView::String(m) => if spec_changed(m) {
            seq![(e.0, RawValueView::String(m.value@))]
        } else {
            Seq::empty()
        },
        ControlValueView::Rectangle(m) => if spec_changed(m) {
            seq![(e.0, RawValueView::Rectangle(m.value))]
        } else {
            Seq::empty()
        },
        ControlValueView::Size(m) => if spec_changed(m) {
            seq![(e.0, RawValueView::Size(m.value))]
        } else {
            Seq::empty()
        },
    }
}

/// The submission entries of the first `n` generic-bucket controls, in
/// bucket order.
pub open spec fn spec_others_entries(
    others: Seq<(u32, (Seq<char>, ControlValueView))>,
    n: int,
) -> Seq<(u32, RawValueView)>
    decreases n,
{
    if n <= 0 {
        Seq::empty()
    } else {
        spec_others_entries(others, n - 1) + spec_other_entry(others[n - 1])
    }
}

/// The submission entries of the first third of the well-known fields.
pub open spec fn spec_known_head(c: ControlsView) -> Seq<(u32, RawValueView)> {
    spec_field_entries(c.ae_enable, 1, |b: bool| RawValueView::Bool(b))
        + spec_field_entries(c.ae_metering_mode, 3, |m: AeMeteringMode| RawValueView::Integer32(m.spec_code() as i32))
        + spec_field_entries(c.ae_constraint_mode, 4, |m: AeConstraintMode| RawValueView::Integer32(m.spec_code() as i32))
        + spec_field_entries(c.ae_exposure_mode, 5, |m: AeExposureMode| RawValueView::Integer32(m.spec_code() as i32))
        + spec_field_entries(c.exposure_value, 6, |f: Fixed| RawValueView::Float(f))
        + spec_field_entries(c.exposure_time, 7, |i: i32| RawValueView::Integer32(i))
}

/// The submission entries of the middle third of the well-known fields.
pub open spec fn spec_known_mid(c: ControlsView) -> Seq<(u32, RawValueView)> {
    spec_field_entries(c.analogue_gain, 8, |f: Fixed| RawValueView::Float(f))
        + spec_field_entries(c.brightness, 9, |f: Fixed| RawValueView::Float(f))
        + spec_field_entries(c.contrast, 10, |f: Fixed| RawValueView::Float(f))
        + spec_field_entries(c.awb_enable, 12, |b: bool| RawValueView::Bool(b))
        + spec_field_entries(c.awb_mode, 13, |m: AwbMode| RawValueView::Integer32(m.spec_code() as i32))
        + spec_field_entries(c.colour_gains, 15, |p: FixedPair| RawValueView::FloatArray(seq![p.0, p.1]))
}

/// The submission entries of the last third of the well-known fields.
pub open spec fn spec_known_tail(c: ControlsView) -> Seq<(u32, RawValueView)> {
    spec_field_entries(c.saturation, 17, |f: Fixed| RawValueView::Float(f))
        + spec_field_entries(c.sharpness, 19, |f: Fixed| RawValueView::Float(f))
        + spec_field_entries(c.colour_correction_matrix, 21, |f: Fixed| RawValueView::Float(f))
        + spec_field_entries(c.frame_duration_limits, 25, |i: i64| RawValueView::Integer64(i))
        + spec_field_entries(c.noise_reduction_mode, 39, |i: i32| RawValueView::Integer32(i))
}

/// The submission entries of the well-known control fields, in field
/// order: exactly those whose current value differs from their default.
pub open spec fn spec_known_submitted(c: ControlsView) -> Seq<(u32, RawValueView)> {
    spec_known_head(c) + spec_known_mid(c) + spec_known_tail(c)
}

/// The control values submitted with a capture request: exactly the
/// controls whose current value differs from their default, each encoded
/// under its numeric control id, well-known fields first, then the generic
/// bucket in order.
pub open spec fn spec_submitted(c: ControlsView) -> Seq<(u32, RawValueView)> {
    spec_known_submitted(c) + spec_others_entries(c.others, c.others.len() as int)
}


/// The current values of a fixed-point control array.
fn fixed_array_values(arr: &Vec<MinMaxValue<Fixed>>) -> (r: Vec<Fixed>)
    ensures
        r@ == arr@.map_values(|m: MinMaxValue<Fixed>| m@.value),
{
    let mut out: Vec<Fixed> = Vec::new();
    let mut k: usize = 0;
    while k < arr.len()
        invariant
            0 <= k <= arr@.len(),
            out@ =~= arr@.map_values(|m: MinMaxValue<Fixed>| m@.value).take(k as int),
        decreases arr@.len() - k,
    {
        out.push(*arr[k].get_value());
        proof {
            assert(out@ =~= arr@.map_values(|m: MinMaxValue<Fixed>| m@.value).take(k as int + 1));
        }
        k = k + 1;
    }
    proof {
        assert(out@ =~= arr@.map_values(|m: MinMaxValue<Fixed>| m@.value));
    }
    out
}

/// Whether any element of a fixed-point control array differs from its
/// default.
fn fixed_array_changed(arr: &Vec<MinMaxValue<Fixed>>) -> (r: bool)
    ensures
        r == (arr@.map_values(|m: MinMaxValue<Fixed>| m@.value) != arr@.map_values(
            |m: MinMaxValue<Fixed>| m@.default,
        )),
{
    let ghost vals = arr@.map_values(|m: MinMaxValue<Fixed>| m@.value);
    let ghost defs = arr@.map_values(|m: MinMaxValue<Fixed>| m@.default);
    let mut k: usize = 0;
    while k < arr.len()
        invariant
            0 <= k <= arr@.len(),
            vals == arr@.map_values(|m: MinMaxValue<Fixed>| m@.value),
            defs == arr@.map_values(|m: MinMaxValue<Fixed>| m@.default),
            forall|j: int| 0 <= j < k ==> vals[j] == defs[j],
        decreases arr@.len() - k,
    {
        if arr[k].get_value_if_changed().is_some() {
            proof {
                assert(vals[k as int] != defs[k as int]);
            }
            return true;
        }
        k = k + 1;
    }
    proof {
        assert(vals =~= defs);
    }
    false
}

impl CameraControls {
    /// The submission entries of one group of the well-known fields.
    #[verifier::rlimit(100)]
    fn entries_known_head(&self) -> (r: Vec<(u32, RawControlValue)>)
        ensures
            r@.map_values(|e: (u32, RawControlValue)| (e.0, e.1@)) == spec_known_head(self@),
    {
        let ghost c = self@;
        let ghost fview = |e: (u32, RawControlValue)| (e.0, e.1@);
        let mut out: Vec<(u32, RawControlValue)> = Vec::new();
        let ghost mut acc: Seq<(u32, RawValueView)> = Seq::empty();
        proof {
            assert(out@.map_values(fview) =~~= acc);
        }
        if let Some(v) = &self.ae_enable {
            if let Some(val) = v.get_value_if_changed() {
                out.push((1, RawControlValue::Bool(*val)));
            }
        }
        proof {
            acc = acc + spec_field_entries(c.ae_enable, 1, |b: bool| RawValueView::Bool(b));
            assert(out@.map_values(fview) =~~= acc);
        }
        if let Some(v) = &self.ae_metering_mode {
            if let Some(val) = v.get_value_if_changed() {
                out.push((3, RawControlValue::Integer32(val.code())));
            }
        }
        proof {
            acc = acc + spec_field_entries(c.ae_metering_mode, 3, |m: AeMeteringMode| RawValueView::Integer32(m.spec_code() as i32));
            assert(out@.map_values(fview) =~~= acc);
        }
        if let Some(v) = &self.ae_constraint_mode {
            if let Some(val) = v.get_value_if_changed() {
                out.push((4, RawControlValue::Integer32(val.code())));
            }
        }
        proof {
            acc = acc + spec_field_entries(c.ae_constraint_mode, 4, |m: AeConstraintMode| RawValueView::Integer32(m.spec_code() as i32));
            assert(out@.map_values(fview) =~~= acc);
        }
        if let Some(v) = &self.ae_exposure_mode {
            if let Some(val) = v.get_value_if_changed() {
                out.push((5, RawControlValue::Integer32(val.code())));
            }
        }
        proof {
            acc = acc + spec_field_entries(c.ae_exposure_mode, 5, |m: AeExposureMode| RawValueView::Integer32(m.spec_code() as i32));
            assert(out@.map_values(fview) =~~= acc);
        }
        if let Some(v) = &self.exposure_value {
            if let Some(val) = v.get_value_if_changed() {
                out.push((6, RawControlValue::Float(*val)));
            }
        }
        proof {
            acc = acc + spec_field_entries(c.exposure_value, 6, |f: Fixed| RawValueView::Float(f));
            assert(out@.map_values(fview) =~~= acc);
        }
        if let Some(v) = &self.exposure_time {
            if let Some(val) = v.get_value_if_changed() {
                out.push((7, RawControlValue::Integer32(*val)));
            }
        }
        proof {
            acc = acc + spec_field_entries(c.exposure_time, 7, |i: i32| RawValueView::Integer32(i));
            assert(out@.map_values(fview) =~~= acc);
        }
        proof {
            assert(acc =~~= spec_known_head(c));
        }
        out
    }

    /// The submission entries of one group of the well-known fields.
    #[verifier::rlimit(100)]
    fn entries_known_mid(&self) -> (r: Vec<(u32, RawControlValue)>)
        ensures
            r@.map_values(|e: (u32, RawControlValue)| (e.0, e.1@)) == spec_known_mid(self@),
    {
        let ghost c = self@;
        let ghost fview = |e: (u32, RawControlValue)| (e.0, e.1@);
        let mut out: Vec<(u32, RawControlValue)> = Vec::new();
        let ghost mut acc: Seq<(u32, RawValueView)> = Seq::empty();
        proof {
            assert(out@.map_values(fview) =~~= acc);
        }
        if let Some(v) = &self.analogue_gain {
            if let Some(val) = v.get_value_if_changed() {
                out.push((8, RawControlValue::Float(*val)));
            }
        }
        proof {
            acc = acc + spec_field_entries(c.analogue_gain, 8, |f: Fixed| RawValueView::Float(f));
            assert(out@.map_values(fview) =~~= acc);
        }
        if let Some(v) = &self.brightness {
            if let Some(val) = v.get_value_if_changed() {
                out.push((9, RawControlValue::Float(*val)));
            }
        }
        proof {
            acc = acc + spec_field_entries(c.brightness, 9, |f: Fixed| RawValueView::Float(f));
            assert(out@.map_values(fview) =~~= acc);
        }
        if let Some(v) = &self.contrast {
            if let Some(val) = v.get_value_if_changed() {
                out.push((10, RawControlValue::Float(*val)));
            }
        }
        proof {
            acc = acc + spec_field_entries(c.contrast, 10, |f: Fixed| RawValueView::Float(f));
            assert(out@.map_values(fview) =~~= acc);
        }
        if let Some(v) = &self.awb_enable {
            if let Some(val) = v.get_value_if_changed() {
                out.push((12, RawControlValue::Bool(*val)));
            }
        }
        proof {
            acc = acc + spec_field_entries(c.awb_enable, 12, |b: bool| RawValueView::Bool(b));
            assert(out@.map_values(fview) =~~= acc);
        }
        if let Some(v) = &self.awb_mode {
            if let Some(val) = v.get_value_if_changed() {
                out.push((13, RawControlValue::Integer32(val.code())));
            }
        }
        proof {
            acc = acc + spec_field_entries(c.awb_mode, 13, |m: AwbMode| RawValueView::Integer32(m.spec_code() as i32));
            assert(out@.map_values(fview) =~~= acc);
        }
        if let Some(v) = &self.colour_gains {
            if let Some(val) = v.get_value_if_changed() {
                let mut pair_vals: Vec<Fixed> = Vec::new();
                pair_vals.push(val.0);
                pair_vals.push(val.1);
                proof {
                    assert(pair_vals@ =~= seq![val.0, val.1]);
                }
                out.push((15, RawControlValue::FloatArray(pair_vals)));
            }
        }
        proof {
            acc = acc + spec_field_entries(c.colour_gains, 15, |p: FixedPair| RawValueView::FloatArray(seq![p.0, p.1]));
            assert(out@.map_values(fview) =~~= acc);
        }
        proof {
            assert(acc =~~= spec_known_mid(c));
        }
        out
    }

    /// The submission entries of one group of the well-known fields.
    #[verifier::rlimit(100)]
    fn entries_known_tail(&self) -> (r: Vec<(u32, RawControlValue)>)
        ensures
            r@.map_values(|e: (u32, RawControlValue)| (e.0, e.1@)) == spec_known_tail(self@),
    {
        let ghost c = self@;
        let ghost fview = |e: (u32, RawControlValue)| (e.0, e.1@);
        let mut out: Vec<(u32, RawControlValue)> = Vec::new();
        let ghost mut acc: Seq<(u32, RawValueView)> = Seq::empty();
        proof {
            assert(out@.map_values(fview) =~~= acc);
        }
        if let Some(v) = &self.saturation {
            if let Some(val) = v.get_value_if_changed() {
                out.push((17, RawControlValue::Float(*val)));
            }
        }
        proof {
            acc = acc + spec_field_entries(c.saturation, 17, |f: Fixed| RawValueView::Float(f));
            assert(out@.map_values(fview) =~~= acc);
        }
        if let Some(v) = &self.sharpness {
            if let Some(val) = v.get_value_if_changed() {
                out.push((19, RawControlValue::Float(*val)));
            }
        }
        proof {
            acc = acc + spec_field_entries(c.sharpness, 19, |f: Fixed| RawValueView::Float(f));
            assert(out@.map_values(fview) =~~= acc);
        }
        if let Some(v) = &self.colour_correction_matrix {
            if let Some(val) = v.get_value_if_changed() {
                out.push((21, RawControlValue::Float(*val)));
            }
        }
        proof {
            acc = acc + spec_field_entries(c.colour_correction_matrix, 21, |f: Fixed| RawValueView::Float(f));
            assert(out@.map_values(fview) =~~= acc);
        }
        if let Some(v) = &self.frame_duration_limits {
            if let Some(val) = v.get_value_if_changed() {
                out.push((25, RawControlValue::Integer64(*val)));
            }
        }
        proof {
            acc = acc + spec_field_entries(c.frame_duration_limits, 25, |i: i64| RawValueView::Integer64(i));
            assert(out@.map_values(fview) =~~= acc);
        }
        if let Some(v) = &self.noise_reduction_mode {
            if let Some(val) = v.get_value_if_changed() {
                out.push((39, RawControlValue::Integer32(*val)));
            }
        }
        proof {
            acc = acc + spec_field_entries(c.noise_reduction_mode, 39, |i: i32| RawValueView::Integer32(i));
            assert(out@.map_values(fview) =~~= acc);
        }
        proof {
            assert(acc =~~= spec_known_tail(c));
        }
        out
    }

    /// The submission entries of the well-known control fields.
    fn known_control_entries(&self) -> (r: Vec<(u32, RawControlValue)>)
        ensures
            r@.map_values(|e: (u32, RawControlValue)| (e.0, e.1@)) == spec_known_submitted(self@),
    {
        let ghost fview = |e: (u32, RawControlValue)| (e.0, e.1@);
        let mut out: Vec<(u32, RawControlValue)> = Vec::new();
        proof {
            assert(out@.map_values(fview) =~~= Seq::<(u32, RawValueView)>::empty());
        }
        let mut head = self.entries_known_head();
        let mut mid = self.entries_known_mid();
        let mut tail = self.entries_known_tail();
        let ghost hv = head@;
        let ghost mv = mid@;
        let ghost tv = tail@;
        out.append(&mut head);
        out.append(&mut mid);
        out.append(&mut tail);
        proof {
            assert(out@ == hv + mv + tv);
            assert(out@.map_values(fview) =~~= hv.map_values(fview) + mv.map_values(fview)
                + tv.map_values(fview));
            assert(out@.map_values(fview) =~~= spec_known_submitted(self@));
        }
        out
    }

    /// The control values to attach to the next capture request: exactly
    /// the controls whose current value differs from their default, each
    /// under its numeric control id.
    pub fn get_libcamera(&self) -> (r: Vec<(u32, RawControlValue)>)
        ensures
            r@.map_values(|e: (u32, RawControlValue)| (e.0, e.1@)) == spec_submitted(self@),
    {
        let ghost c = self@;
        let mut out = self.known_control_entries();
        let ghost acc_fields = out@.map_values(|e: (u32, RawControlValue)| (e.0, e.1@));
        let mut k: usize = 0;
        while k < self.others.len()
            invariant
                0 <= k <= self.others@.len(),
                c == self@,
                acc_fields + spec_others_entries(c.others, k as int) =~~= out@.map_values(
                    |e: (u32, RawControlValue)| (e.0, e.1@),
                ),
            decreases self.others@.len() - k,
        {
            let ghost fview2 = |e: (u32, RawControlValue)| (e.0, e.1@);
            let ghost before = out@.map_values(fview2);
            let id = self.others[k].0;
            match &self.others[k].1.1 {
                CameraControlValue::NoValue => {},
                CameraControlValue::Bool(m) => {
                    if let Some(val) = m.get_value_if_changed() {
                        out.push((id, RawControlValue::Bool(*val)));
                    }
                },
                CameraControlValue::Byte(m) => {
                    if let Some(val) = m.get_value_if_changed() {
                        out.push((id, RawControlValue::Byte(*val)));
                    }
                },
                CameraControlValue::Integer32(m) => {
                    if let Some(val) = m.get_value_if_changed() {
                        out.push((id, RawControlValue::Integer32(*val)));
                    }
                },
                CameraControlValue::Integer64(m) => {
                    if let Some(val) = m.get_value_if_changed() {
                        out.push((id, RawControlValue::Integer64(*val)));
                    }
                },
                CameraControlValue::Float(m) => {
                    if let Some(val) = m.get_value_if_changed() {
                        out.push((id, RawControlValue::Float(*val)));
                    }
                },
                CameraControlValue::FloatArray(arr) => {
                    if fixed_array_changed(arr) {
                        let vals = fixed_array_values(arr);
                        out.push((id, RawControlValue::FloatArray(vals)));
                        proof {
                            let ev = c.others[k as int].1.1;
                            assert(ev matches ControlValueView::FloatArray(a) && a
                                == arr@.map_values(|m: MinMaxValue<Fixed>| m@));
                            assert(arr@.map_values(|m: MinMaxValue<Fixed>| m@).map_values(
                                |mv: MinMaxView<Fixed>| mv.value,
                            ) =~= arr@.map_values(|m: MinMaxValue<Fixed>| m@.value));
                            assert(arr@.map_values(|m: MinMaxValue<Fixed>| m@).map_values(
                                |mv: MinMaxView<Fixed>| mv.default,
                            ) =~= arr@.map_values(|m: MinMaxValue<Fixed>| m@.default));
                        }
                    } else {
                        proof {
                            let ev = c.others[k as int].1.1;
                            assert(ev matches ControlValueView::FloatArray(a) && a
                                == arr@.map_values(|m: MinMaxValue<Fixed>| m@));
                            assert(arr@.map_values(|m: MinMaxValue<Fixed>| m@).map_values(
                                |mv: MinMaxView<Fixed>| mv.value,
                            ) =~= arr@.map_values(|m: MinMaxValue<Fixed>| m@.value));
                            assert(arr@.map_values(|m: MinMaxValue<Fixed>| m@).map_values(
                                |mv: MinMaxView<Fixed>| mv.default,
                            ) =~= arr@.map_values(|m: MinMaxValue<Fixed>| m@.default));
                        }
                    }
                },
                CameraControlValue::String(m) => {
                    if let Some(val) = m.get_value_if_changed() {
                        out.push((id, RawControlValue::String(val.clone())));
                    }
                },
                CameraControlValue::Rectangle(m) => {
                    if let Some(val) = m.get_value_if_changed() {
                        out.push((id, RawControlValue::Rectangle(*val)));
                    }
                },
                CameraControlValue::Size(m) => {
                    if let Some(val) = m.get_value_if_changed() {
                        out.push((id, RawControlValue::Size(*val)));
                    }
                },
            }
            proof {
                assert(out@.map_values(fview2) =~~= before + spec_other_entry(
                    c.others[k as int],
                ));
                assert(spec_others_entries(c.others, k as int + 1) == spec_others_entries(
                    c.others,
                    k as int,
                ) + spec_other_entry(c.others[k as int]));
            }
            k = k + 1;
        }
        proof {
            assert(out@.map_values(|e: (u32, RawControlValue)| (e.0, e.1@)) =~~= spec_submitted(
                c,
            ));
        }
        out
    }
}

/// A generic-bucket control still holds its default.
pub open spec fn spec_other_unchanged(e: (u32, (Seq<char>, ControlValueView))) -> bool {
    match e.1.1 {
        ControlValueView::NoValue => true,
        ControlValueView::Bool(m) => !spec_changed(m),
        ControlValueView::Byte(m) => !spec_changed(m),
        ControlValueView::Integer32(m) => !spec_changed(m),
        ControlValueView::Integer64(m) => !spec_changed(m),
        ControlValueView::Float(m) => !spec_changed(m),
        ControlValueView::FloatArray(arr) => arr.map_values(|m: MinMaxView<Fixed>| m.value)
            == arr.map_values(|m: MinMaxView<Fixed>| m.default),
        ControlValueView::String(m) => !spec_changed(m),
        ControlValueView::Rectangle(m) => !spec_changed(m),
        ControlValueView::Size(m) => !spec_changed(m),
    }
}

/// Nothing unchanged is ever submitted: a control set in which every
/// control still holds its default submits an empty control list.
#[verifier::rlimit(60)]
pub proof fn lemma_unchanged_controls_not_submitted(c: ControlsView)
    requires
        c.ae_enable matches Some(m) ==> !spec_changed(m),
        c.ae_metering_mode matches Some(m) ==> !spec_changed(m),
        c.ae_constraint_mode matches Some(m) ==> !spec_changed(m),
        c.ae_exposure_mode matches Some(m) ==> !spec_changed(m),
        c.exposure_value matches Some(m) ==> !spec_changed(m),
        c.exposure_time matches Some(m) ==> !spec_changed(m),
        c.analogue_gain matches Some(m) ==> !spec_changed(m),
        c.brightness matches Some(m) ==> !spec_changed(m),
        c.contrast matches Some(m) ==> !spec_changed(m),
        c.awb_enable matches Some(m) ==> !spec_changed(m),
        c.awb_mode matches Some(m) ==> !spec_changed(m),
        c.colour_gains matches Some(m) ==> !spec_changed(m),
        c.saturation matches Some(m) ==> !spec_changed(m),
        c.sharpness matches Some(m) ==> !spec_changed(m),
        c.colour_correction_matrix matches Some(m) ==> !spec_changed(m),
        c.frame_duration_limits matches Some(m) ==> !spec_changed(m),
        c.noise_reduction_mode matches Some(m) ==> !spec_changed(m),
        forall|k: int| 0 <= k < c.others.len() ==> spec_other_unchanged(#[trigger] c.others[k]),
    ensures
        spec_submitted(c) == Seq::<(u32, RawValueView)>::empty(),
{
    assert forall|k: int|
        0 <= k < c.others.len() implies spec_other_entry(#[trigger] c.others[k]) == Seq::<
        (u32, RawValueView),
    >::empty() by {
        assert(spec_other_unchanged(c.others[k]));
    }
    lemma_others_unchanged_empty(c.others, c.others.len() as int);
    assert(spec_known_submitted(c) =~= Seq::<(u32, RawValueView)>::empty());
    assert(spec_submitted(c) =~= Seq::<(u32, RawValueView)>::empty());
}

/// Unchanged generic-bucket controls contribute no submission entries.
proof fn lemma_others_unchanged_empty(others: Seq<(u32, (Seq<char>, ControlValueView))>, n: int)
    requires
        forall|k: int|
            0 <= k < others.len() ==> spec_other_entry(#[trigger] others[k]) == Seq::<
                (u32, RawValueView),
            >::empty(),
        n <= others.len(),
    ensures
        spec_others_entries(others, n) == Seq::<(u32, RawValueView)>::empty(),
    decreases n,
{
    if n > 0 {
        lemma_others_unchanged_empty(others, n - 1);
        assert(spec_others_entries(others, n) =~= Seq::<(u32, RawValueView)>::empty());
    }
}

} // verus!
