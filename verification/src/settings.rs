//! Per-phone camera capabilities and the settings fixed at capture launch.

use vstd::prelude::*;

use crate::divisors::{
    common, greatest_common, lemma_lowest, lemma_one_proportion,
    remainders_keep_the_common_divisor, the_common_divisor_is_the_greatest,
};
use crate::json;
use crate::json::{json_natural, json_string};
use crate::lists::{first, found, kept, lemma_first, lemma_kept, lemma_kept_push};
use crate::number;
use crate::number::{
    clamped, equal, finite, floor_scaled, is_finite, is_ordered, less, normalized, normalized_sum,
    ordered, rank, round_scaled, Number, NumberView, ONE,
};
use crate::outside::{Act, ActView, Answer, AnswerView, Outcome, OutcomeView, Outside, OutsideView};
use crate::plain::Plain;
use crate::table::{lookup, Table};
use crate::text;
use crate::text::{
    debug_text, decimal, halves, lossy_text, parsed_unsigned, pieces, text_lines, trimmed,
    without_prefix, without_suffix,
};

verus! {

/// One of a phone's cameras, as scrcpy lists it.
#[derive(Debug)]
pub struct Lens {
    pub id: String,
    pub facing: String,
    pub sensor_size: String,
    pub resolutions: Vec<String>,
    pub frame_rates: Vec<u32>,
    pub zoom_min: Number,
    pub zoom_max: Number,
}

#[verifier::ext_equal]
pub struct LensView {
    pub id: Seq<char>,
    pub facing: Seq<char>,
    pub sensor_size: Seq<char>,
    pub resolutions: Seq<Seq<char>>,
    pub frame_rates: Seq<u32>,
    pub zoom_min: NumberView,
    pub zoom_max: NumberView,
}

impl View for Lens {
    type V = LensView;

    open spec fn view(&self) -> LensView {
        LensView {
            id: self.id.deep_view(),
            facing: self.facing.deep_view(),
            sensor_size: self.sensor_size.deep_view(),
            resolutions: self.resolutions.deep_view(),
            frame_rates: self.frame_rates.deep_view(),
            zoom_min: self.zoom_min.deep_view(),
            zoom_max: self.zoom_max.deep_view(),
        }
    }
}

impl DeepView for Lens {
    type V = LensView;

    open spec fn deep_view(&self) -> LensView {
        self@
    }
}

impl Plain for Lens {
    fn same(&self, other: &Self) -> bool {
        self.id.same(&other.id)
            && self.facing.same(&other.facing)
            && self.sensor_size.same(&other.sensor_size)
            && self.resolutions.same(&other.resolutions)
            && self.frame_rates.same(&other.frame_rates)
            && self.zoom_min.same(&other.zoom_min)
            && self.zoom_max.same(&other.zoom_max)
    }

    fn copy(&self) -> Self {
        Lens {
            id: self.id.copy(),
            facing: self.facing.copy(),
            sensor_size: self.sensor_size.copy(),
            resolutions: self.resolutions.copy(),
            frame_rates: self.frame_rates.copy(),
            zoom_min: self.zoom_min.copy(),
            zoom_max: self.zoom_max.copy(),
        }
    }
}

/// A normalized rectangle of the frame, each part given by its bits.
#[derive(Debug, Clone, Copy)]
pub struct Crop {
    pub x: u64,
    pub y: u64,
    pub width: u64,
    pub height: u64,
}

/// A rectangle by the place of each part in the order of numbers.
pub struct CropView {
    pub x: int,
    pub y: int,
    pub width: int,
    pub height: int,
}

impl View for Crop {
    type V = CropView;

    open spec fn view(&self) -> CropView {
        CropView {
            x: rank(self.x),
            y: rank(self.y),
            width: rank(self.width),
            height: rank(self.height),
        }
    }
}

impl DeepView for Crop {
    type V = CropView;

    open spec fn deep_view(&self) -> CropView {
        self@
    }
}

impl Plain for Crop {
    fn same(&self, other: &Self) -> bool {
        equal(self.x, other.x) && equal(self.y, other.y) && equal(self.width, other.width) && equal(
            self.height,
            other.height,
        )
    }

    fn copy(&self) -> Self {
        *self
    }
}

/// What a capture is launched with.
#[derive(Debug)]
pub struct CameraSettings {
    pub lens: String,
    pub resolution: String,
    pub frame_rate: u32,
    pub aspect_ratio: String,
    pub zoom: Number,
    /// The rectangle of each lens that has one.
    pub crops: Table<Crop>,
}

#[verifier::ext_equal]
pub struct CameraSettingsView {
    pub lens: Seq<char>,
    pub resolution: Seq<char>,
    pub frame_rate: u32,
    pub aspect_ratio: Seq<char>,
    pub zoom: NumberView,
    pub crops: Map<Seq<char>, CropView>,
}

impl View for CameraSettings {
    type V = CameraSettingsView;

    open spec fn view(&self) -> CameraSettingsView {
        CameraSettingsView {
            lens: self.lens.deep_view(),
            resolution: self.resolution.deep_view(),
            frame_rate: self.frame_rate.deep_view(),
            aspect_ratio: self.aspect_ratio.deep_view(),
            zoom: self.zoom.deep_view(),
            crops: self.crops.deep_view(),
        }
    }
}

impl DeepView for CameraSettings {
    type V = CameraSettingsView;

    open spec fn deep_view(&self) -> CameraSettingsView {
        self@
    }
}

impl Plain for CameraSettings {
    fn same(&self, other: &Self) -> bool {
        self.lens.same(&other.lens)
            && self.resolution.same(&other.resolution)
            && self.frame_rate.same(&other.frame_rate)
            && self.aspect_ratio.same(&other.aspect_ratio)
            && self.zoom.same(&other.zoom)
            && self.crops.same(&other.crops)
    }

    fn copy(&self) -> Self {
        CameraSettings {
            lens: self.lens.copy(),
            resolution: self.resolution.copy(),
            frame_rate: self.frame_rate.copy(),
            aspect_ratio: self.aspect_ratio.copy(),
            zoom: self.zoom.copy(),
            crops: self.crops.copy(),
        }
    }
}

/// One phone's lenses, and its settings as applied and as pending.
#[derive(Debug)]
pub struct SettingsState {
    pub phone: String,
    pub lenses: Vec<Lens>,
    pub applied: CameraSettings,
    pub pending: CameraSettings,
    pub offered_resolutions: Vec<String>,
    pub has_pending_changes: bool,
    pub rejected: Option<String>,
}

#[verifier::ext_equal]
pub struct SettingsStateView {
    pub phone: Seq<char>,
    pub lenses: Seq<LensView>,
    pub applied: CameraSettingsView,
    pub pending: CameraSettingsView,
    pub offered_resolutions: Seq<Seq<char>>,
    pub has_pending_changes: bool,
    pub rejected: Option<Seq<char>>,
}

impl View for SettingsState {
    type V = SettingsStateView;

    open spec fn view(&self) -> SettingsStateView {
        SettingsStateView {
            phone: self.phone.deep_view(),
            lenses: self.lenses.deep_view(),
            applied: self.applied.deep_view(),
            pending: self.pending.deep_view(),
            offered_resolutions: self.offered_resolutions.deep_view(),
            has_pending_changes: self.has_pending_changes.deep_view(),
            rejected: self.rejected.deep_view(),
        }
    }
}

impl DeepView for SettingsState {
    type V = SettingsStateView;

    open spec fn deep_view(&self) -> SettingsStateView {
        self@
    }
}

impl Plain for SettingsState {
    fn same(&self, other: &Self) -> bool {
        self.phone.same(&other.phone)
            && self.lenses.same(&other.lenses)
            && self.applied.same(&other.applied)
            && self.pending.same(&other.pending)
            && self.offered_resolutions.same(&other.offered_resolutions)
            && self.has_pending_changes.same(&other.has_pending_changes)
            && self.rejected.same(&other.rejected)
    }

    fn copy(&self) -> Self {
        SettingsState {
            phone: self.phone.copy(),
            lenses: self.lenses.copy(),
            applied: self.applied.copy(),
            pending: self.pending.copy(),
            offered_resolutions: self.offered_resolutions.copy(),
            has_pending_changes: self.has_pending_changes.copy(),
            rejected: self.rejected.copy(),
        }
    }
}

// ---------------------------------------------------------------------------
// Equality

/// Whether every part of a rectangle equals itself: what is no number does not.
pub open spec fn comparable_crop(crop: CropView) -> bool {
    ordered(crop.x) && ordered(crop.y) && ordered(crop.width) && ordered(crop.height)
}

/// Whether every number of some settings equals itself.
pub open spec fn comparable(settings: CameraSettingsView) -> bool {
    &&& ordered(rank(settings.zoom.bits))
    &&& forall|crop: CropView| #[trigger]
        settings.crops.contains_value(crop) ==> comparable_crop(crop)
}

fn is_comparable(settings: &CameraSettings) -> (r: bool)
    ensures
        r == comparable(settings@),
{
    if !is_ordered(settings.zoom.bits) {
        return false;
    }
    let crops = settings.crops.values();
    let ghost all = crops.deep_view();
    let mut i: usize = 0;
    while i < crops.len()
        invariant
            i <= crops.len(),
            all == crops.deep_view(),
            forall|crop: CropView| #[trigger]
                all.contains(crop) <==> settings@.crops.contains_value(crop),
            forall|j: int| 0 <= j < i ==> comparable_crop(#[trigger] all[j]),
        decreases crops.len() - i,
    {
        let crop = crops[i];
        assert(all[i as int] == crop@);
        if !is_ordered(crop.x) || !is_ordered(crop.y) || !is_ordered(crop.width) || !is_ordered(
            crop.height,
        ) {
            assert(all.contains(crop@));
            return false;
        }
        i = i + 1;
    }
    assert forall|crop: CropView| #[trigger]
        settings@.crops.contains_value(crop) implies comparable_crop(crop) by {
        assert(all.contains(crop));
    }
    true
}

/// Whether two settings are equal. Numbers are compared as numbers: the two
/// zeros are equal, and what is no number equals nothing.
pub open spec fn equals(a: CameraSettingsView, b: CameraSettingsView) -> bool {
    &&& comparable(a)
    &&& rank(a.zoom.bits) == rank(b.zoom.bits)
    &&& a == CameraSettingsView { zoom: a.zoom, ..b }
}

fn are_equal(a: &CameraSettings, b: &CameraSettings) -> (r: bool)
    ensures
        r == equals(a@, b@),
{
    is_comparable(a) && equal(a.zoom.bits, b.zoom.bits) && a.lens.same(&b.lens)
        && a.resolution.same(&b.resolution) && a.frame_rate == b.frame_rate && a.aspect_ratio.same(
        &b.aspect_ratio,
    ) && a.crops.same(&b.crops)
}

/// Whether two lenses are equal, their numbers compared as numbers.
pub open spec fn equal_lenses(a: LensView, b: LensView) -> bool {
    &&& ordered(rank(a.zoom_min.bits)) && ordered(rank(a.zoom_max.bits))
    &&& rank(a.zoom_min.bits) == rank(b.zoom_min.bits)
    &&& rank(a.zoom_max.bits) == rank(b.zoom_max.bits)
    &&& a == LensView { zoom_min: a.zoom_min, zoom_max: a.zoom_max, ..b }
}

fn are_equal_lenses(a: &Lens, b: &Lens) -> (r: bool)
    ensures
        r == equal_lenses(a@, b@),
{
    is_ordered(a.zoom_min.bits) && is_ordered(a.zoom_max.bits) && equal(
        a.zoom_min.bits,
        b.zoom_min.bits,
    ) && equal(a.zoom_max.bits, b.zoom_max.bits) && a.id.same(&b.id) && a.facing.same(&b.facing)
        && a.sensor_size.same(&b.sensor_size) && a.resolutions.same(&b.resolutions)
        && a.frame_rates.same(&b.frame_rates)
}

/// Whether a phone's lenses and settings are equal to another's, their numbers
/// compared as numbers.
pub open spec fn equal_states(a: SettingsStateView, b: SettingsStateView) -> bool {
    &&& a.lenses.len() == b.lenses.len()
    &&& forall|i: int|
        0 <= i < a.lenses.len() ==> equal_lenses(#[trigger] a.lenses[i], b.lenses[i])
    &&& equals(a.applied, b.applied)
    &&& equals(a.pending, b.pending)
    &&& a == SettingsStateView {
        lenses: a.lenses,
        applied: a.applied,
        pending: a.pending,
        ..b
    }
}

// ---------------------------------------------------------------------------
// Sizes and ratios

/// A size written as `1280x720`: at least two each way.
pub open spec fn size_of(s: Seq<char>) -> Option<(u32, u32)> {
    match halves(s, "x"@) {
        None => None,
        Some((w, h)) => match (
            parsed_unsigned(w, u32::MAX as nat),
            parsed_unsigned(h, u32::MAX as nat),
        ) {
            (Some(width), Some(height)) => if width >= 2 && height >= 2 {
                Some((width as u32, height as u32))
            } else {
                None
            },
            _ => None,
        },
    }
}

pub fn parse_size(size: &str) -> (r: Option<(u32, u32)>)
    ensures
        r == size_of(size@),
{
    match text::split_once(size, "x") {
        None => None,
        Some((w, h)) => {
            let width = text::parse_unsigned(&w, u32::MAX as u64);
            let height = text::parse_unsigned(&h, u32::MAX as u64);
            match (width, height) {
                (Some(width), Some(height)) => {
                    if width >= 2 && height >= 2 {
                        Some((width as u32, height as u32))
                    } else {
                        None
                    }
                },
                _ => None,
            }
        },
    }
}

/// The greatest common divisor: it divides both numbers, and whatever divides
/// both divides it.
pub fn gcd(a: u32, b: u32) -> (r: u32)
    ensures
        r == common(a as nat, b as nat),
        greatest_common(a as nat, b as nat, r as nat),
{
    let mut x: u32 = a;
    let mut y: u32 = b;
    while y != 0
        invariant
            common(x as nat, y as nat) == common(a as nat, b as nat),
        decreases y,
    {
        proof {
            remainders_keep_the_common_divisor(x as nat, y as nat);
        }
        let rest: u32 = x % y;
        x = y;
        y = rest;
    }
    proof {
        remainders_keep_the_common_divisor(x as nat, 0);
        the_common_divisor_is_the_greatest(a as nat, b as nat);
    }
    x
}

/// The shape of a size: the two numbers in lowest terms.
pub open spec fn shape(width: u32, height: u32) -> (nat, nat) {
    let d = common(width as nat, height as nat);
    (width as nat / d, height as nat / d)
}

/// The shape of a size as it is written: `16:9` for `1280x720`.
pub open spec fn ratio_of(size: Seq<char>) -> Option<Seq<char>> {
    match size_of(size) {
        None => None,
        Some((w, h)) => Some(decimal(shape(w, h).0) + ":"@ + decimal(shape(w, h).1)),
    }
}

pub open spec fn invalid_resolution(size: Seq<char>) -> Seq<char> {
    "invalid resolution "@ + debug_text(size)
}

pub fn aspect_ratio(size: &str) -> (r: Result<String, String>)
    ensures
        match r {
            Ok(ratio) => ratio_of(size@) == Some(ratio@),
            Err(e) => ratio_of(size@) is None && e@ == invalid_resolution(size@),
        },
{
    match parse_size(size) {
        None => Err(text::of("invalid resolution ").concat(&text::quoted(size))),
        Some((width, height)) => {
            let divisor = gcd(width, height);
            proof {
                the_common_divisor_is_the_greatest(width as nat, height as nat);
            }
            let w: u32 = width / divisor;
            let h: u32 = height / divisor;
            Ok(text::number(w as u64).concat(":").concat(&text::number(h as u64)))
        },
    }
}

fn has_ratio(size: &str, ratio: &str) -> (r: bool)
    ensures
        r == (ratio_of(size@) == Some(ratio@)),
{
    match aspect_ratio(size) {
        Ok(own) => text::same(&own, ratio),
        Err(_) => false,
    }
}

pub open spec fn shaped(ratio: Seq<char>) -> spec_fn(Seq<char>) -> bool {
    |size: Seq<char>| ratio_of(size) == Some(ratio)
}

fn offered(resolutions: &Vec<String>, ratio: &str) -> (r: Vec<String>)
    ensures
        r.deep_view() == kept(resolutions.deep_view(), shaped(ratio@)),
{
    let ghost all = resolutions.deep_view();
    let mut r: Vec<String> = Vec::new();
    let mut i: usize = 0;
    assert(r.deep_view() =~= Seq::empty());
    assert(all.take(0) =~= Seq::empty());
    while i < resolutions.len()
        invariant
            i <= resolutions.len(),
            all == resolutions.deep_view(),
            r.deep_view() == kept(all.take(i as int), shaped(ratio@)),
        decreases resolutions.len() - i,
    {
        proof {
            assert(all.take(i + 1) =~= all.take(i as int).push(all[i as int]));
            lemma_kept_push(all.take(i as int), all[i as int], shaped(ratio@));
        }
        if has_ratio(&resolutions[i], ratio) {
            let ghost sofar = r.deep_view();
            let size = resolutions[i].copy();
            r.push(size);
            assert(r.deep_view() =~= sofar.push(size@));
        }
        i = i + 1;
    }
    assert(all.take(i as int) =~= all);
    r
}

// ---------------------------------------------------------------------------
// Lenses

pub open spec fn lens_named(id: Seq<char>) -> spec_fn(LensView) -> bool {
    |lens: LensView| lens.id == id
}

/// The lens with an id.
pub open spec fn lens_of(lenses: Seq<LensView>, id: Seq<char>) -> Option<LensView> {
    found(lenses, lens_named(id))
}

fn find_lens(lenses: &Vec<Lens>, id: &str) -> (r: Option<usize>)
    ensures
        match r {
            Some(i) => i < lenses.len()
                && lens_of(lenses.deep_view(), id@) == Some(lenses[i as int]@),
            None => lens_of(lenses.deep_view(), id@) is None,
        },
{
    let ghost all = lenses.deep_view();
    let mut i: usize = 0;
    proof {
        lemma_first(all, lens_named(id@));
    }
    while i < lenses.len()
        invariant
            i <= lenses.len(),
            all == lenses.deep_view(),
            forall|j: int| 0 <= j < i ==> !lens_named(id@)(#[trigger] all[j]),
        decreases lenses.len() - i,
    {
        assert(all[i as int] == lenses[i as int]@);
        if text::same(&lenses[i].id, id) {
            proof {
                lemma_first(all, lens_named(id@));
            }
            return Some(i);
        }
        i = i + 1;
    }
    None
}

/// What every listed lens has: a size to offer, each of them a size; a frame
/// rate; and a range to zoom in.
pub open spec fn usable(lens: LensView) -> bool {
    &&& lens.resolutions.len() > 0
    &&& forall|i: int|
        0 <= i < lens.resolutions.len() ==> size_of(#[trigger] lens.resolutions[i]) is Some
    &&& lens.frame_rates.len() > 0
    &&& ordered(rank(lens.zoom_min.bits)) && ordered(rank(lens.zoom_max.bits))
    &&& rank(lens.zoom_min.bits) <= rank(lens.zoom_max.bits)
}

/// What scrcpy's list is once it was accepted.
pub open spec fn usable_all(lenses: Seq<LensView>) -> bool {
    &&& lenses.len() > 0
    &&& forall|i: int| 0 <= i < lenses.len() ==> usable(#[trigger] lenses[i])
}

/// 720p where it is offered, else the first size.
pub open spec fn preferred_of(sizes: Seq<Seq<char>>) -> Seq<char> {
    if sizes.contains("1280x720"@) {
        "1280x720"@
    } else {
        sizes[0]
    }
}

fn preferred(sizes: &Vec<String>) -> (r: String)
    requires
        sizes.len() > 0,
    ensures
        r@ == preferred_of(sizes.deep_view()),
{
    if text::has(sizes, "1280x720") {
        text::of("1280x720")
    } else {
        sizes[0].copy()
    }
}

/// 30 frames a second where they are offered, else the first rate.
pub open spec fn preferred_rate(rates: Seq<u32>) -> u32 {
    if rates.contains(30u32) {
        30
    } else {
        rates[0]
    }
}

fn has_rate(rates: &Vec<u32>, rate: u32) -> (r: bool)
    ensures
        r == rates.deep_view().contains(rate),
{
    let mut i: usize = 0;
    while i < rates.len()
        invariant
            i <= rates.len(),
            forall|j: int| 0 <= j < i ==> rates.deep_view()[j] != rate,
        decreases rates.len() - i,
    {
        if rates[i] == rate {
            assert(rates.deep_view()[i as int] == rate);
            return true;
        }
        i = i + 1;
    }
    false
}

fn preferred_fps(rates: &Vec<u32>) -> (r: u32)
    requires
        rates.len() > 0,
    ensures
        r == preferred_rate(rates.deep_view()),
{
    if has_rate(rates, 30) {
        30
    } else {
        rates[0]
    }
}

/// Whether a number is in a lens's range.
pub open spec fn in_range(lens: LensView, zoom: NumberView) -> bool {
    rank(lens.zoom_min.bits) <= rank(zoom.bits) <= rank(lens.zoom_max.bits)
}

fn within(lens: &Lens, zoom: &Number) -> (r: bool)
    ensures
        r == in_range(lens@, zoom@),
{
    !less(zoom.bits, lens.zoom_min.bits) && !less(lens.zoom_max.bits, zoom.bits)
}

/// Whether the lenses offer everything that some settings ask for.
pub open spec fn allowed(settings: CameraSettingsView, lenses: Seq<LensView>) -> bool {
    match lens_of(lenses, settings.lens) {
        None => false,
        Some(lens) => {
            &&& lens.resolutions.contains(settings.resolution)
            &&& lens.frame_rates.contains(settings.frame_rate)
            &&& in_range(lens, settings.zoom)
            &&& ratio_of(settings.resolution) == Some(settings.aspect_ratio)
        },
    }
}

fn valid(settings: &CameraSettings, lenses: &Vec<Lens>) -> (r: bool)
    ensures
        r == allowed(settings@, lenses.deep_view()),
{
    match find_lens(lenses, &settings.lens) {
        None => false,
        Some(i) => {
            let lens = &lenses[i];
            text::has(&lens.resolutions, &settings.resolution) && has_rate(
                &lens.frame_rates,
                settings.frame_rate,
            ) && within(lens, &settings.zoom) && has_ratio(
                &settings.resolution,
                &settings.aspect_ratio,
            )
        },
    }
}

/// What a phone starts with: its first lens, 720p and 30 frames a second where
/// it has them, not zoomed, not cropped.
pub open spec fn initial(lenses: Seq<LensView>) -> CameraSettingsView {
    let lens = lenses[0];
    let resolution = preferred_of(lens.resolutions);
    CameraSettingsView {
        lens: lens.id,
        resolution,
        frame_rate: preferred_rate(lens.frame_rates),
        aspect_ratio: match ratio_of(resolution) {
            Some(ratio) => ratio,
            None => Seq::empty(),
        },
        zoom: lens.zoom_min,
        crops: Map::empty(),
    }
}

fn defaults(lenses: &Vec<Lens>) -> (r: CameraSettings)
    requires
        usable_all(lenses.deep_view()),
    ensures
        r@ == initial(lenses.deep_view()),
{
    let lens = &lenses[0];
    proof {
        assert(lenses.deep_view()[0] == lens@);
        assert(usable(lens@));
    }
    let resolution = preferred(&lens.resolutions);
    let aspect_ratio = match aspect_ratio(&resolution) {
        Ok(ratio) => ratio,
        Err(_) => text::of(""),
    };
    proof {
        let sizes = lens@.resolutions;
        if sizes.contains("1280x720"@) {
            let i = choose|i: int| 0 <= i < sizes.len() && sizes[i] == "1280x720"@;
            assert(size_of(sizes[i]) is Some);
        } else {
            assert(size_of(sizes[0]) is Some);
        }
    }
    CameraSettings {
        lens: lens.id.copy(),
        resolution,
        frame_rate: preferred_fps(&lens.frame_rates),
        aspect_ratio,
        zoom: lens.zoom_min.copy(),
        crops: Table::new(),
    }
}

// ---------------------------------------------------------------------------
// Applied and pending

/// A new value for a setting: its JSON, and the number and the rectangle that
/// the JSON is, where it is one.
#[derive(Debug)]
pub struct SettingValue {
    pub json: String,
    pub number: Option<Number>,
    pub crop: Option<Crop>,
}

#[verifier::ext_equal]
pub struct SettingValueView {
    pub json: Seq<char>,
    pub number: Option<NumberView>,
    pub crop: Option<CropView>,
}

impl View for SettingValue {
    type V = SettingValueView;

    open spec fn view(&self) -> SettingValueView {
        SettingValueView {
            json: self.json@,
            number: self.number.deep_view(),
            crop: self.crop.deep_view(),
        }
    }
}

/// Whether a rectangle begins inside the frame and has an extent.
pub open spec fn framed(crop: CropView) -> bool {
    &&& finite(crop.x) && finite(crop.y) && finite(crop.width) && finite(crop.height)
    &&& 0 <= crop.x < ONE
    &&& 0 <= crop.y < ONE
    &&& crop.width > 0
    &&& crop.height > 0
}

fn is_framed(crop: &Crop) -> (r: bool)
    ensures
        r == framed(crop@),
{
    is_finite(crop.x) && is_finite(crop.y) && is_finite(crop.width) && is_finite(crop.height)
        && !less(crop.x, 0) && !less(crop.y, 0) && less(crop.x, ONE) && less(crop.y, ONE) && less(
        0,
        crop.width,
    ) && less(0, crop.height)
}

/// What follows from the lenses and the settings: the sizes to offer, and
/// whether anything is pending.
pub open spec fn derived(state: SettingsStateView) -> SettingsStateView {
    SettingsStateView {
        offered_resolutions: match lens_of(state.lenses, state.pending.lens) {
            Some(lens) => kept(lens.resolutions, shaped(state.pending.aspect_ratio)),
            None => Seq::empty(),
        },
        has_pending_changes: !equals(state.pending, state.applied),
        ..state
    }
}

/// A phone's settings when its lenses become known: what was saved, where the
/// lenses still allow it, else what a phone starts with.
pub open spec fn opened(
    phone: Seq<char>,
    lenses: Seq<LensView>,
    saved: Option<CameraSettingsView>,
) -> SettingsStateView {
    let applied = match saved {
        Some(settings) => if allowed(settings, lenses) {
            settings
        } else {
            initial(lenses)
        },
        None => initial(lenses),
    };
    derived(
        SettingsStateView {
            phone,
            lenses,
            applied,
            pending: applied,
            offered_resolutions: Seq::empty(),
            has_pending_changes: false,
            rejected: None,
        },
    )
}

/// The pending settings with another lens: what the new lens does not offer is
/// replaced by what it prefers.
pub open spec fn with_lens(pending: CameraSettingsView, lens: LensView) -> CameraSettingsView {
    let resolution = if lens.resolutions.contains(pending.resolution) {
        pending.resolution
    } else {
        preferred_of(lens.resolutions)
    };
    CameraSettingsView {
        lens: lens.id,
        resolution,
        aspect_ratio: match ratio_of(resolution) {
            Some(ratio) => ratio,
            None => pending.aspect_ratio,
        },
        frame_rate: if lens.frame_rates.contains(pending.frame_rate) {
            pending.frame_rate
        } else {
            preferred_rate(lens.frame_rates)
        },
        zoom: clamped(pending.zoom, lens.zoom_min, lens.zoom_max),
        ..pending
    }
}

pub open spec fn lens_gone(id: Seq<char>) -> Seq<char> {
    "lens "@ + debug_text(id) + " is no longer available"@
}

/// The pending settings with one of them changed, or why it cannot be.
pub open spec fn with_change(
    state: SettingsStateView,
    name: Seq<char>,
    value: SettingValueView,
) -> Result<CameraSettingsView, Seq<char>> {
    let pending = state.pending;
    let lens = lens_of(state.lenses, pending.lens);
    if name == "lens"@ {
        match json_string(value.json) {
            None => Err("setting value must be a string"@),
            Some(id) => match lens_of(state.lenses, id) {
                None => Err("lens "@ + debug_text(id) + " is not available"@),
                Some(lens) => Ok(with_lens(pending, lens)),
            },
        }
    } else if name == "resolution"@ {
        match json_string(value.json) {
            None => Err("setting value must be a string"@),
            Some(resolution) => match lens {
                None => Err(lens_gone(pending.lens)),
                Some(lens) => if lens.resolutions.contains(resolution) && ratio_of(resolution)
                    == Some(pending.aspect_ratio) {
                    Ok(CameraSettingsView { resolution, ..pending })
                } else {
                    Err(
                        "resolution "@ + debug_text(resolution) + " is not offered for lens "@
                            + lens.id + " at "@ + pending.aspect_ratio,
                    )
                },
            },
        }
    } else if name == "frame_rate"@ {
        match json_natural(value.json) {
            Some(rate) if rate <= u32::MAX => match lens {
                None => Err(lens_gone(pending.lens)),
                Some(lens) => if lens.frame_rates.contains(rate as u32) {
                    Ok(CameraSettingsView { frame_rate: rate as u32, ..pending })
                } else {
                    Err(
                        "frame rate "@ + decimal(rate as nat) + " is not reported by lens "@
                            + pending.lens,
                    )
                },
            },
            _ => Err("frame_rate must be a positive integer"@),
        }
    } else if name == "aspect_ratio"@ {
        match json_string(value.json) {
            None => Err("setting value must be a string"@),
            Some(ratio) => match lens {
                None => Err(lens_gone(pending.lens)),
                Some(lens) => {
                    let sizes = kept(lens.resolutions, shaped(ratio));
                    if sizes.len() == 0 {
                        Err(
                            "aspect ratio "@ + debug_text(ratio) + " is not offered by lens "@
                                + pending.lens,
                        )
                    } else {
                        Ok(
                            CameraSettingsView {
                                aspect_ratio: ratio,
                                resolution: if sizes.contains(pending.resolution) {
                                    pending.resolution
                                } else {
                                    preferred_of(sizes)
                                },
                                ..pending
                            },
                        )
                    }
                },
            },
        }
    } else if name == "zoom"@ {
        match value.number {
            Some(zoom) if finite(rank(zoom.bits)) => match lens {
                None => Err(lens_gone(pending.lens)),
                Some(lens) => if in_range(lens, zoom) {
                    Ok(CameraSettingsView { zoom, ..pending })
                } else {
                    Err(
                        "zoom "@ + zoom.text + " is outside lens "@ + lens.id + "'s range ["@
                            + lens.zoom_min.text + ", "@ + lens.zoom_max.text + "]"@,
                    )
                },
            },
            _ => Err("zoom must be a number"@),
        }
    } else if name == "crop"@ {
        if value.json == "null"@ {
            Ok(CameraSettingsView { crops: pending.crops.remove(pending.lens), ..pending })
        } else {
            match value.crop {
                None => Err("crop must contain numeric x, y, width and height"@),
                Some(crop) => if framed(crop) {
                    Ok(
                        CameraSettingsView {
                            crops: pending.crops.insert(pending.lens, crop),
                            ..pending
                        },
                    )
                } else {
                    Err("crop coordinates must be finite normalized values"@)
                },
            }
        }
    } else {
        Err("no such camera setting: "@ + debug_text(name))
    }
}

/// The state with one setting changed, or why it cannot be.
pub open spec fn changed(
    state: SettingsStateView,
    name: Seq<char>,
    value: SettingValueView,
) -> Result<SettingsStateView, Seq<char>> {
    match with_change(state, name, value) {
        Ok(pending) => Ok(derived(SettingsStateView { pending, rejected: None, ..state })),
        Err(e) => Err(e),
    }
}

/// The state with the pending settings thrown away.
pub open spec fn discarded(state: SettingsStateView) -> SettingsStateView {
    derived(SettingsStateView { pending: state.applied, rejected: None, ..state })
}

/// The state with the pending settings in force.
pub open spec fn accepted(state: SettingsStateView) -> SettingsStateView {
    derived(SettingsStateView { applied: state.pending, rejected: None, ..state })
}

/// The state with the pending settings refused and thrown away.
pub open spec fn refused(state: SettingsStateView, message: Seq<char>) -> SettingsStateView {
    derived(SettingsStateView { pending: state.applied, rejected: Some(message), ..state })
}

/// The state with the pending settings refused and kept.
pub open spec fn noted(state: SettingsStateView, message: Seq<char>) -> SettingsStateView {
    derived(SettingsStateView { rejected: Some(message), ..state })
}

/// Every size that a lens keeps for a ratio is one it lists.
proof fn lemma_sizes_kept(lens: LensView, ratio: Seq<char>)
    requires
        usable(lens),
    ensures
        forall|i: int|
            0 <= i < kept(lens.resolutions, shaped(ratio)).len() ==> lens.resolutions.contains(
                #[trigger] kept(lens.resolutions, shaped(ratio))[i],
            ) && ratio_of(kept(lens.resolutions, shaped(ratio))[i]) == Some(ratio),
{
    let sizes = kept(lens.resolutions, shaped(ratio));
    lemma_kept(lens.resolutions, shaped(ratio));
    assert forall|i: int| 0 <= i < sizes.len() implies lens.resolutions.contains(
        #[trigger] sizes[i],
    ) && ratio_of(sizes[i]) == Some(ratio) by {
        assert(sizes.contains(sizes[i]));
    }
}

/// What is always true of a phone's settings: its lenses are usable, they allow
/// what is applied and what is pending, and what follows from these is said.
pub open spec fn standing(state: SettingsStateView) -> bool {
    &&& usable_all(state.lenses)
    &&& allowed(state.applied, state.lenses)
    &&& allowed(state.pending, state.lenses)
    &&& state == derived(state)
}

impl SettingsState {
    /// Every lens is one that scrcpy's list can hold.
    pub open spec fn wf(self) -> bool {
        usable_all(self@.lenses)
    }

    pub fn new(phone: String, lenses: Vec<Lens>, saved: Option<CameraSettings>) -> (r: Self)
        requires
            usable_all(lenses.deep_view()),
        ensures
            r@ == opened(phone@, lenses.deep_view(), saved.deep_view()),
            r.wf(),
    {
        let applied = match saved {
            Some(settings) => if valid(&settings, &lenses) {
                settings
            } else {
                defaults(&lenses)
            },
            None => defaults(&lenses),
        };
        let mut state = SettingsState {
            phone,
            lenses,
            pending: applied.copy(),
            applied,
            offered_resolutions: Vec::new(),
            has_pending_changes: false,
            rejected: None,
        };
        state.refresh();
        state
    }

    /// Whether the lenses and the settings are equal.
    pub fn equals(&self, other: &Self) -> (r: bool)
        ensures
            r == equal_states(self@, other@),
    {
        if self.lenses.len() != other.lenses.len() {
            return false;
        }
        let mut i: usize = 0;
        while i < self.lenses.len()
            invariant
                i <= self.lenses.len(),
                self.lenses.len() == other.lenses.len(),
                forall|j: int|
                    0 <= j < i ==> equal_lenses(#[trigger] self@.lenses[j], other@.lenses[j]),
            decreases self.lenses.len() - i,
        {
            assert(self@.lenses[i as int] == self.lenses[i as int]@);
            assert(other@.lenses[i as int] == other.lenses[i as int]@);
            if !are_equal_lenses(&self.lenses[i], &other.lenses[i]) {
                return false;
            }
            i = i + 1;
        }
        are_equal(&self.applied, &other.applied) && are_equal(&self.pending, &other.pending)
            && self.phone.same(&other.phone) && self.offered_resolutions.same(
            &other.offered_resolutions,
        ) && self.has_pending_changes == other.has_pending_changes && self.rejected.same(
            &other.rejected,
        )
    }

    fn refresh(&mut self)
        ensures
            final(self)@ == derived(old(self)@),
    {
        self.offered_resolutions = match find_lens(&self.lenses, &self.pending.lens) {
            Some(i) => offered(&self.lenses[i].resolutions, &self.pending.aspect_ratio),
            None => {
                let none: Vec<String> = Vec::new();
                assert(none.deep_view() =~= Seq::empty());
                none
            },
        };
        self.has_pending_changes = !are_equal(&self.pending, &self.applied);
    }

    /// Changes one pending setting. What cannot be changed is left as it was.
    pub fn change(&mut self, name: &str, value: &SettingValue) -> (r: Result<(), String>)
        requires
            old(self).wf(),
        ensures
            final(self).wf(),
            match changed(old(self)@, name@, value@) {
                Ok(state) => r is Ok && final(self)@ == state,
                Err(e) => r matches Err(message) && message@ == e && final(self)@ == old(self)@,
            },
    {
        match self.changed_pending(name, value) {
            Err(e) => Err(e),
            Ok(pending) => {
                self.pending = pending;
                self.rejected = None;
                self.refresh();
                Ok(())
            },
        }
    }

    fn changed_pending(&self, name: &str, value: &SettingValue) -> (r: Result<
        CameraSettings,
        String,
    >)
        requires
            self.wf(),
        ensures
            match with_change(self@, name@, value@) {
                Ok(pending) => r matches Ok(p) && p@ == pending,
                Err(e) => r matches Err(message) && message@ == e,
            },
    {
        if text::same(name, "lens") {
            self.changed_lens(value)
        } else if text::same(name, "resolution") {
            self.changed_resolution(value)
        } else if text::same(name, "frame_rate") {
            self.changed_rate(value)
        } else if text::same(name, "aspect_ratio") {
            self.changed_ratio(value)
        } else if text::same(name, "zoom") {
            self.changed_zoom(value)
        } else if text::same(name, "crop") {
            let mut pending = self.pending.copy();
            if text::same(&value.json, "null") {
                pending.crops.remove(&self.pending.lens);
                Ok(pending)
            } else {
                match &value.crop {
                    None => Err(text::of("crop must contain numeric x, y, width and height")),
                    Some(crop) => if is_framed(crop) {
                        pending.crops.insert(self.pending.lens.copy(), *crop);
                        Ok(pending)
                    } else {
                        Err(text::of("crop coordinates must be finite normalized values"))
                    },
                }
            }
        } else {
            Err(text::of("no such camera setting: ").concat(&text::quoted(name)))
        }
    }

    fn changed_lens(&self, value: &SettingValue) -> (r: Result<CameraSettings, String>)
        requires
            self.wf(),
        ensures
            match with_change(self@, "lens"@, value@) {
                Ok(pending) => r matches Ok(p) && p@ == pending,
                Err(e) => r matches Err(message) && message@ == e,
            },
    {
        let id = match json::string(&value.json) {
            None => return Err(text::of("setting value must be a string")),
            Some(id) => id,
        };
        let i = match find_lens(&self.lenses, &id) {
            None => return Err(
                text::of("lens ").concat(&text::quoted(&id)).concat(" is not available"),
            ),
            Some(i) => i,
        };
        let lens = &self.lenses[i];
        proof {
            lemma_first(self@.lenses, lens_named(id@));
            assert(usable(lens@));
        }
        let mut pending = self.pending.copy();
        pending.lens = lens.id.copy();
        if !text::has(&lens.resolutions, &pending.resolution) {
            pending.resolution = preferred(&lens.resolutions);
        }
        match aspect_ratio(&pending.resolution) {
            Ok(ratio) => {
                pending.aspect_ratio = ratio;
            },
            Err(_) => {},
        }
        if !has_rate(&lens.frame_rates, pending.frame_rate) {
            pending.frame_rate = preferred_fps(&lens.frame_rates);
        }
        pending.zoom = number::clamp(&pending.zoom, &lens.zoom_min, &lens.zoom_max);
        Ok(pending)
    }

    fn changed_resolution(&self, value: &SettingValue) -> (r: Result<CameraSettings, String>)
        ensures
            match with_change(self@, "resolution"@, value@) {
                Ok(pending) => r matches Ok(p) && p@ == pending,
                Err(e) => r matches Err(message) && message@ == e,
            },
    {
        proof {
            lemma_names();
        }
        let resolution = match json::string(&value.json) {
            None => return Err(text::of("setting value must be a string")),
            Some(resolution) => resolution,
        };
        match self.lens() {
            Err(e) => Err(e),
            Ok(i) => {
                let lens = &self.lenses[i];
                if text::has(&lens.resolutions, &resolution) && has_ratio(
                    &resolution,
                    &self.pending.aspect_ratio,
                ) {
                    let mut pending = self.pending.copy();
                    pending.resolution = resolution;
                    Ok(pending)
                } else {
                    Err(
                        text::of("resolution ").concat(&text::quoted(&resolution)).concat(
                            " is not offered for lens ",
                        ).concat(&lens.id).concat(" at ").concat(&self.pending.aspect_ratio),
                    )
                }
            },
        }
    }

    fn changed_rate(&self, value: &SettingValue) -> (r: Result<CameraSettings, String>)
        ensures
            match with_change(self@, "frame_rate"@, value@) {
                Ok(pending) => r matches Ok(p) && p@ == pending,
                Err(e) => r matches Err(message) && message@ == e,
            },
    {
        proof {
            lemma_names();
        }
        let rate: u64 = match json::natural(&value.json) {
            None => return Err(text::of("frame_rate must be a positive integer")),
            Some(rate) => rate,
        };
        if rate > u32::MAX as u64 {
            return Err(text::of("frame_rate must be a positive integer"));
        }
        match self.lens() {
            Err(e) => Err(e),
            Ok(i) => {
                if has_rate(&self.lenses[i].frame_rates, rate as u32) {
                    let mut pending = self.pending.copy();
                    pending.frame_rate = rate as u32;
                    Ok(pending)
                } else {
                    Err(
                        text::of("frame rate ").concat(&text::number(rate)).concat(
                            " is not reported by lens ",
                        ).concat(&self.pending.lens),
                    )
                }
            },
        }
    }

    fn changed_ratio(&self, value: &SettingValue) -> (r: Result<CameraSettings, String>)
        ensures
            match with_change(self@, "aspect_ratio"@, value@) {
                Ok(pending) => r matches Ok(p) && p@ == pending,
                Err(e) => r matches Err(message) && message@ == e,
            },
    {
        proof {
            lemma_names();
        }
        let ratio = match json::string(&value.json) {
            None => return Err(text::of("setting value must be a string")),
            Some(ratio) => ratio,
        };
        match self.lens() {
            Err(e) => Err(e),
            Ok(i) => {
                let sizes = offered(&self.lenses[i].resolutions, &ratio);
                if sizes.len() == 0 {
                    return Err(
                        text::of("aspect ratio ").concat(&text::quoted(&ratio)).concat(
                            " is not offered by lens ",
                        ).concat(&self.pending.lens),
                    );
                }
                let mut pending = self.pending.copy();
                pending.aspect_ratio = ratio;
                if !text::has(&sizes, &pending.resolution) {
                    pending.resolution = preferred(&sizes);
                }
                Ok(pending)
            },
        }
    }

    fn changed_zoom(&self, value: &SettingValue) -> (r: Result<CameraSettings, String>)
        ensures
            match with_change(self@, "zoom"@, value@) {
                Ok(pending) => r matches Ok(p) && p@ == pending,
                Err(e) => r matches Err(message) && message@ == e,
            },
    {
        proof {
            lemma_names();
        }
        let zoom = match &value.number {
            None => return Err(text::of("zoom must be a number")),
            Some(zoom) => zoom,
        };
        if !is_finite(zoom.bits) {
            return Err(text::of("zoom must be a number"));
        }
        match self.lens() {
            Err(e) => Err(e),
            Ok(i) => {
                let lens = &self.lenses[i];
                if within(lens, zoom) {
                    let mut pending = self.pending.copy();
                    pending.zoom = zoom.copy();
                    Ok(pending)
                } else {
                    Err(
                        text::of("zoom ").concat(&zoom.text).concat(" is outside lens ").concat(
                            &lens.id,
                        ).concat("'s range [").concat(&lens.zoom_min.text).concat(", ").concat(
                            &lens.zoom_max.text,
                        ).concat("]"),
                    )
                }
            },
        }
    }

    /// The place of the pending lens.
    fn lens(&self) -> (r: Result<usize, String>)
        ensures
            match r {
                Ok(i) => i < self.lenses.len() && lens_of(self@.lenses, self@.pending.lens) == Some(
                    self.lenses[i as int]@,
                ),
                Err(e) => lens_of(self@.lenses, self@.pending.lens) is None && e@ == lens_gone(
                    self@.pending.lens,
                ),
            },
    {
        match find_lens(&self.lenses, &self.pending.lens) {
            Some(i) => Ok(i),
            None => Err(
                text::of("lens ").concat(&text::quoted(&self.pending.lens)).concat(
                    " is no longer available",
                ),
            ),
        }
    }

    /// Throws the pending settings away.
    pub fn discard(&mut self)
        ensures
            final(self)@ == discarded(old(self)@),
    {
        self.pending = self.applied.copy();
        self.rejected = None;
        self.refresh();
    }

    /// Puts the pending settings in force.
    pub fn applied(&mut self)
        ensures
            final(self)@ == accepted(old(self)@),
    {
        self.applied = self.pending.copy();
        self.rejected = None;
        self.refresh();
    }

    /// Throws the pending settings away and says why.
    pub fn reject(&mut self, message: String)
        ensures
            final(self)@ == refused(old(self)@, message@),
    {
        self.pending = self.applied.copy();
        self.rejected = Some(message);
        self.refresh();
    }

    /// Says why the pending settings are not in force, and keeps them.
    pub fn note_rejection(&mut self, message: String)
        ensures
            final(self)@ == noted(old(self)@, message@),
    {
        self.rejected = Some(message);
        self.refresh();
    }
}

/// The names of the settings differ.
proof fn lemma_names()
    ensures
        "resolution"@ != "lens"@,
        "frame_rate"@ != "lens"@,
        "frame_rate"@ != "resolution"@,
        "aspect_ratio"@ != "lens"@,
        "aspect_ratio"@ != "resolution"@,
        "aspect_ratio"@ != "frame_rate"@,
        "zoom"@ != "lens"@,
        "zoom"@ != "resolution"@,
        "zoom"@ != "frame_rate"@,
        "zoom"@ != "aspect_ratio"@,
{
    reveal_strlit("lens");
    reveal_strlit("resolution");
    reveal_strlit("frame_rate");
    reveal_strlit("aspect_ratio");
    reveal_strlit("zoom");
    assert("zoom"@[0] == 'z' && "lens"@[0] == 'l');
    assert("frame_rate"@[0] == 'f' && "resolution"@[0] == 'r');
}

// ---------------------------------------------------------------------------
// What scrcpy lists

/// The text between two others.
pub open spec fn enclosed(s: Seq<char>, open: Seq<char>, close: Seq<char>) -> Option<Seq<char>> {
    match halves(s, open) {
        None => None,
        Some((_, rest)) => match halves(rest, close) {
            None => None,
            Some((value, _)) => Some(value),
        },
    }
}

pub open spec fn not_enclosed(s: Seq<char>, open: Seq<char>) -> Seq<char> {
    "missing "@ + open + " in "@ + debug_text(s)
}

fn between(s: &str, open: &str, close: &str) -> (r: Result<String, String>)
    ensures
        match r {
            Ok(value) => enclosed(s@, open@, close@) == Some(value@),
            Err(e) => enclosed(s@, open@, close@) is None && e@ == not_enclosed(s@, open@),
        },
{
    let found = match text::split_once(s, open) {
        None => None,
        Some((_, rest)) => match text::split_once(&rest, close) {
            None => None,
            Some((value, _)) => Some(value),
        },
    };
    match found {
        Some(value) => Ok(value),
        None => Err(text::of("missing ").concat(open).concat(" in ").concat(&text::quoted(s))),
    }
}

/// The parts of a list, each without the space around it.
pub open spec fn parts(s: Seq<char>) -> Seq<Seq<char>> {
    pieces(s, ',').map_values(|part: Seq<char>| trimmed(part))
}

fn split_parts(s: &str) -> (r: Vec<String>)
    ensures
        r.deep_view() == parts(s@),
        r.len() > 0,
{
    let list = text::split(s, ',');
    let mut r: Vec<String> = Vec::new();
    let mut i: usize = 0;
    while i < list.len()
        invariant
            i <= list.len(),
            list.deep_view() == pieces(s@, ','),
            r.deep_view() == parts(s@).take(i as int),
        decreases list.len() - i,
    {
        let ghost sofar = r.deep_view();
        let part = text::trim(&list[i]);
        assert(part@ == parts(s@)[i as int]);
        r.push(part);
        assert(r.deep_view() =~= sofar.push(part@));
        assert(parts(s@).take(i + 1) =~= parts(s@).take(i as int).push(parts(s@)[i as int]));
        i = i + 1;
    }
    assert(parts(s@).take(i as int) =~= parts(s@));
    r
}

/// Texts as frame rates, if each is one.
pub open spec fn rates_of(texts: Seq<Seq<char>>) -> Option<Seq<u32>>
    decreases texts.len(),
{
    if texts.len() == 0 {
        Some(Seq::empty())
    } else {
        match (rates_of(texts.drop_last()), parsed_unsigned(texts.last(), u32::MAX as nat)) {
            (Some(rates), Some(rate)) => Some(rates.push(rate as u32)),
            _ => None,
        }
    }
}

proof fn lemma_rates_stay_bad(texts: Seq<Seq<char>>, n: int)
    requires
        0 <= n <= texts.len(),
        rates_of(texts.take(n)) is None,
    ensures
        rates_of(texts) is None,
    decreases texts.len() - n,
{
    if n < texts.len() {
        assert(texts.take(n + 1).drop_last() =~= texts.take(n));
        lemma_rates_stay_bad(texts, n + 1);
    } else {
        assert(texts.take(n) =~= texts);
    }
}

fn parse_rates(texts: &Vec<String>) -> (r: Option<Vec<u32>>)
    ensures
        r.deep_view() == rates_of(texts.deep_view()),
        r matches Some(rates) ==> rates.len() == texts.len(),
{
    let ghost all = texts.deep_view();
    let mut r: Vec<u32> = Vec::new();
    let mut i: usize = 0;
    assert(r.deep_view() =~= Seq::empty());
    assert(all.take(0) =~= Seq::empty());
    while i < texts.len()
        invariant
            i <= texts.len(),
            all == texts.deep_view(),
            r.len() == i,
            rates_of(all.take(i as int)) == Some(r.deep_view()),
        decreases texts.len() - i,
    {
        proof {
            assert(all.take(i + 1).drop_last() =~= all.take(i as int));
            assert(all.take(i + 1).last() == texts[i as int]@);
        }
        match text::parse_unsigned(&texts[i], u32::MAX as u64) {
            None => {
                proof {
                    lemma_rates_stay_bad(all, i + 1);
                }
                return None;
            },
            Some(rate) => {
                let ghost sofar = r.deep_view();
                r.push(rate as u32);
                assert(r.deep_view() =~= sofar.push(rate as u32));
            },
        }
        i = i + 1;
    }
    assert(all.take(i as int) =~= all);
    Some(r)
}

/// Texts as numbers, if each is one. The first that is none is the last read.
pub open spec fn numbers_of(o: OutsideView, texts: Seq<Seq<char>>) -> (
    OutsideView,
    Option<Seq<NumberView>>,
)
    decreases texts.len(),
{
    if texts.len() == 0 {
        (o, Some(Seq::empty()))
    } else {
        let (o, front) = numbers_of(o, texts.drop_last());
        match front {
            None => (o, None),
            Some(numbers) => {
                let (o, answer) = o.ask(ActView::Number { text: texts.last() });
                match answer {
                    AnswerView::Number { number: Some(number) } => (o, Some(numbers.push(number))),
                    _ => (o, None),
                }
            },
        }
    }
}

proof fn lemma_numbers_stay_bad(o: OutsideView, texts: Seq<Seq<char>>, n: int)
    requires
        0 <= n <= texts.len(),
        numbers_of(o, texts.take(n)).1 is None,
    ensures
        numbers_of(o, texts) == numbers_of(o, texts.take(n)),
    decreases texts.len() - n,
{
    if n < texts.len() {
        assert(texts.take(n + 1).drop_last() =~= texts.take(n));
        lemma_numbers_stay_bad(o, texts, n + 1);
    } else {
        assert(texts.take(n) =~= texts);
    }
}

fn read_numbers(o: &mut Outside, texts: &Vec<String>) -> (r: Option<Vec<Number>>)
    ensures
        (final(o)@, r.deep_view()) == numbers_of(old(o)@, texts.deep_view()),
{
    let ghost all = texts.deep_view();
    let ghost start = o@;
    let mut r: Vec<Number> = Vec::new();
    let mut i: usize = 0;
    assert(r.deep_view() =~= Seq::empty());
    assert(all.take(0) =~= Seq::empty());
    while i < texts.len()
        invariant
            i <= texts.len(),
            all == texts.deep_view(),
            start == old(o)@,
            numbers_of(start, all.take(i as int)) == (o@, Some(r.deep_view())),
        decreases texts.len() - i,
    {
        proof {
            assert(all.take(i + 1).drop_last() =~= all.take(i as int));
            assert(all.take(i + 1).last() == texts[i as int]@);
        }
        let answer = o.ask(Act::Number { text: texts[i].copy() });
        match answer {
            Answer::Number { number: Some(number) } => {
                let ghost sofar = r.deep_view();
                r.push(number);
                assert(r.deep_view() =~= sofar.push(number@));
            },
            _ => {
                proof {
                    lemma_numbers_stay_bad(start, all, i + 1);
                }
                return None;
            },
        }
        i = i + 1;
    }
    assert(all.take(i as int) =~= all);
    Some(r)
}

/// Not a space.
pub open spec fn solid() -> spec_fn(char) -> bool {
    |c: char| !text::is_space(c)
}

/// What a lens's line says after its id, between the brackets.
pub open spec fn details_of(rest: Seq<char>) -> Option<Seq<char>> {
    match without_prefix(trimmed(rest), "("@) {
        None => None,
        Some(inner) => without_suffix(inner, ")"@),
    }
}

/// A lens's line after its id: how it faces and the size of its sensor come
/// first, its frame rates and its range are marked.
pub open spec fn lens_detailed(
    o: OutsideView,
    rest: Seq<char>,
    id: Seq<char>,
    details: Seq<char>,
) -> (OutsideView, Result<LensView, Seq<char>>) {
    let fields = parts(details);
    let facing = fields[0];
    let sensor_size = if fields.len() > 1 {
        fields[1]
    } else {
        Seq::empty()
    };
    if facing.len() == 0 {
        (o, Err("empty lens facing in "@ + debug_text(rest)))
    } else if size_of(sensor_size) is None {
        (o, Err("invalid sensor size "@ + debug_text(sensor_size)))
    } else {
        match enclosed(details, "fps={"@, "}"@) {
            None => (o, Err(not_enclosed(details, "fps={"@))),
            Some(rates) => match rates_of(parts(rates)) {
                None => (o, Err("invalid frame rates in "@ + debug_text(rest))),
                Some(frame_rates) => match enclosed(details, "zoom-range=["@, "]"@) {
                    None => (o, Err(not_enclosed(details, "zoom-range=["@))),
                    Some(range) => {
                        let (o, zoom) = numbers_of(o, parts(range));
                        (
                            o,
                            match zoom {
                                None => Err("invalid zoom range in "@ + debug_text(rest)),
                                Some(zoom) => if zoomable(zoom) && !frame_rates.contains(0u32) {
                                    Ok(
                                        LensView {
                                            id,
                                            facing,
                                            sensor_size,
                                            resolutions: Seq::empty(),
                                            frame_rates,
                                            zoom_min: zoom[0],
                                            zoom_max: zoom[1],
                                        },
                                    )
                                } else {
                                    Err(
                                        "incomplete camera characteristics in "@ + debug_text(rest),
                                    )
                                },
                            },
                        )
                    },
                },
            },
        }
    }
}

/// A range of two positive numbers, the smaller first.
pub open spec fn zoomable(zoom: Seq<NumberView>) -> bool {
    &&& zoom.len() == 2
    &&& finite(rank(zoom[0].bits)) && finite(rank(zoom[1].bits))
    &&& 0 < rank(zoom[0].bits) <= rank(zoom[1].bits)
}

/// A lens's line, after `--camera-id=`.
pub open spec fn lens_line(o: OutsideView, rest: Seq<char>) -> (
    OutsideView,
    Result<LensView, Seq<char>>,
) {
    let end = text::prefix_len(rest, solid());
    if end == rest.len() {
        (o, Err("could not parse lens id from "@ + debug_text(rest)))
    } else if end == 0 {
        (o, Err("empty lens id in "@ + debug_text(rest)))
    } else {
        match details_of(rest.skip(end)) {
            None => (o, Err("could not parse lens characteristics from "@ + debug_text(rest))),
            Some(details) => lens_detailed(o, rest, rest.take(end), details),
        }
    }
}

/// What every lens has from its own line on.
pub open spec fn sound(lens: LensView) -> bool {
    &&& forall|i: int|
        0 <= i < lens.resolutions.len() ==> size_of(#[trigger] lens.resolutions[i]) is Some
    &&& lens.frame_rates.len() > 0
    &&& ordered(rank(lens.zoom_min.bits)) && ordered(rank(lens.zoom_max.bits))
    &&& rank(lens.zoom_min.bits) <= rank(lens.zoom_max.bits)
}

fn parse_lens(o: &mut Outside, rest: &str) -> (r: Result<Lens, String>)
    ensures
        match r {
            Ok(lens) => (final(o)@, Ok::<LensView, Seq<char>>(lens@)) == lens_line(old(o)@, rest@)
                && sound(lens@),
            Err(e) => (final(o)@, Err::<LensView, Seq<char>>(e@)) == lens_line(old(o)@, rest@),
        },
{
    let v = text::chars(rest);
    let mut end: usize = 0;
    while end < v.len() && !text::space(v[end])
        invariant
            end <= v.len(),
            v@ == rest@,
            forall|j: int| 0 <= j < end ==> solid()(#[trigger] v@[j]),
        decreases v.len() - end,
    {
        end = end + 1;
    }
    proof {
        text::lemma_prefix_len(rest@, solid(), end as int);
    }
    if end == v.len() {
        return Err(text::of("could not parse lens id from ").concat(&text::quoted(rest)));
    }
    if end == 0 {
        return Err(text::of("empty lens id in ").concat(&text::quoted(rest)));
    }
    let id = text::slice(&v, 0, end);
    let tail = text::slice(&v, end, v.len());
    assert(id@ =~= rest@.take(end as int));
    assert(tail@ =~= rest@.skip(end as int));
    let details = match text::strip_prefix(&text::trim(&tail), "(") {
        None => None,
        Some(inner) => text::strip_suffix(&inner, ")"),
    };
    match details {
        None => Err(
            text::of("could not parse lens characteristics from ").concat(&text::quoted(rest)),
        ),
        Some(details) => parse_details(o, rest, id, &details),
    }
}

fn parse_details(o: &mut Outside, rest: &str, id: String, details: &str) -> (r: Result<
    Lens,
    String,
>)
    ensures
        match r {
            Ok(lens) => (final(o)@, Ok::<LensView, Seq<char>>(lens@)) == lens_detailed(
                old(o)@,
                rest@,
                id@,
                details@,
            ) && sound(lens@),
            Err(e) => (final(o)@, Err::<LensView, Seq<char>>(e@)) == lens_detailed(
                old(o)@,
                rest@,
                id@,
                details@,
            ),
        },
{
    let fields = split_parts(details);
    let facing = fields[0].copy();
    let sensor_size = if fields.len() > 1 {
        fields[1].copy()
    } else {
        String::new()
    };
    if text::chars(&facing).len() == 0 {
        return Err(text::of("empty lens facing in ").concat(&text::quoted(rest)));
    }
    if parse_size(&sensor_size).is_none() {
        return Err(text::of("invalid sensor size ").concat(&text::quoted(&sensor_size)));
    }
    let frame_rates = match between(details, "fps={", "}") {
        Err(e) => return Err(e),
        Ok(rates) => match parse_rates(&split_parts(&rates)) {
            None => return Err(
                text::of("invalid frame rates in ").concat(&text::quoted(rest)),
            ),
            Some(frame_rates) => frame_rates,
        },
    };
    let mut zoom = match between(details, "zoom-range=[", "]") {
        Err(e) => return Err(e),
        Ok(range) => match read_numbers(o, &split_parts(&range)) {
            None => return Err(text::of("invalid zoom range in ").concat(&text::quoted(rest))),
            Some(zoom) => zoom,
        },
    };
    if zoom.len() != 2 || has_rate(&frame_rates, 0) || !is_finite(zoom[0].bits) || !is_finite(
        zoom[1].bits,
    ) || !less(0, zoom[0].bits) || less(zoom[1].bits, zoom[0].bits) {
        return Err(
            text::of("incomplete camera characteristics in ").concat(&text::quoted(rest)),
        );
    }
    let lens = Lens {
        id,
        facing,
        sensor_size,
        resolutions: Vec::new(),
        frame_rates,
        zoom_min: zoom[0].copy(),
        zoom_max: zoom[1].copy(),
    };
    assert(lens.resolutions.deep_view() =~= Seq::empty());
    Ok(lens)
}

/// How far a list has been read.
#[derive(Debug)]
pub struct Reading {
    pub lenses: Vec<Lens>,
    /// The lens whose sizes are being listed.
    pub current: Option<Lens>,
    /// Whether the sizes are those of high speed capture, which do not count.
    pub high_speed: bool,
}

#[verifier::ext_equal]
pub struct ReadingView {
    pub lenses: Seq<LensView>,
    pub current: Option<LensView>,
    pub high_speed: bool,
}

impl View for Reading {
    type V = ReadingView;

    open spec fn view(&self) -> ReadingView {
        ReadingView {
            lenses: self.lenses.deep_view(),
            current: self.current.deep_view(),
            high_speed: self.high_speed.deep_view(),
        }
    }
}

impl DeepView for Reading {
    type V = ReadingView;

    open spec fn deep_view(&self) -> ReadingView {
        self@
    }
}

/// The lenses so far, the current one included.
pub open spec fn listed(reading: ReadingView) -> Seq<LensView> {
    match reading.current {
        Some(lens) => reading.lenses.push(lens),
        None => reading.lenses,
    }
}

/// One line of the list, without the space around it.
pub open spec fn line_read(o: OutsideView, reading: ReadingView, line: Seq<char>) -> (
    OutsideView,
    Result<ReadingView, Seq<char>>,
) {
    match without_prefix(line, "--camera-id="@) {
        Some(rest) => {
            let (o, lens) = lens_line(o, rest);
            (
                o,
                match lens {
                    Ok(lens) => Ok(
                        ReadingView {
                            lenses: listed(reading),
                            current: Some(lens),
                            high_speed: false,
                        },
                    ),
                    Err(e) => Err(e),
                },
            )
        },
        None => if text::begins(line, "High speed capture"@) {
            (o, Ok(ReadingView { high_speed: true, ..reading }))
        } else if reading.high_speed {
            (o, Ok(reading))
        } else {
            match without_prefix(line, "- "@) {
                None => (o, Ok(reading)),
                Some(size) => if size_of(size) is None {
                    (o, Err("invalid lens resolution "@ + debug_text(size)))
                } else {
                    match reading.current {
                        None => (o, Err("lens resolution without a lens: "@ + debug_text(size))),
                        Some(lens) => (
                            o,
                            Ok(
                                ReadingView {
                                    current: Some(
                                        LensView {
                                            resolutions: lens.resolutions.push(size),
                                            ..lens
                                        },
                                    ),
                                    ..reading
                                },
                            ),
                        ),
                    }
                },
            }
        },
    }
}

/// Lines of the list, one after the other, up to the first that is refused.
pub open spec fn lines_read(o: OutsideView, reading: ReadingView, lines: Seq<Seq<char>>) -> (
    OutsideView,
    Result<ReadingView, Seq<char>>,
)
    decreases lines.len(),
{
    if lines.len() == 0 {
        (o, Ok(reading))
    } else {
        let (o, next) = line_read(o, reading, trimmed(lines[0]));
        match next {
            Ok(reading) => lines_read(o, reading, lines.drop_first()),
            Err(e) => (o, Err(e)),
        }
    }
}

/// The lenses that a list names, each with its sizes; or what is wrong with it.
pub open spec fn lenses_read(o: OutsideView, list: Seq<char>) -> (
    OutsideView,
    Result<Seq<LensView>, Seq<char>>,
) {
    let start = ReadingView { lenses: Seq::empty(), current: None, high_speed: false };
    let (o, end) = lines_read(o, start, text_lines(list));
    (
        o,
        match end {
            Err(e) => Err(e),
            Ok(reading) => {
                let lenses = listed(reading);
                if lenses.len() > 0 && forall|i: int|
                    0 <= i < lenses.len() ==> (#[trigger] lenses[i]).resolutions.len() > 0 {
                    Ok(lenses)
                } else {
                    Err("scrcpy returned no usable camera capabilities"@)
                }
            },
        },
    )
}

/// Whether every lens so far is sound.
pub open spec fn all_sound(reading: ReadingView) -> bool {
    &&& forall|i: int| 0 <= i < reading.lenses.len() ==> sound(#[trigger] reading.lenses[i])
    &&& reading.current matches Some(lens) ==> sound(lens)
}

impl Reading {
    /// Counts the current lens among the finished ones.
    fn finish(&mut self)
        requires
            all_sound(old(self)@),
        ensures
            final(self)@ == (ReadingView {
                lenses: listed(old(self)@),
                current: None,
                ..old(self)@
            }),
            all_sound(final(self)@),
    {
        let mut current: Option<Lens> = None;
        std::mem::swap(&mut current, &mut self.current);
        match current {
            Some(lens) => {
                let ghost before = self.lenses.deep_view();
                self.lenses.push(lens);
                assert(self.lenses.deep_view() =~= before.push(lens@));
            },
            None => {},
        }
    }

    fn read(&mut self, o: &mut Outside, line: &str) -> (r: Result<(), String>)
        requires
            all_sound(old(self)@),
        ensures
            match r {
                Ok(_) => all_sound(final(self)@) && (
                    final(o)@,
                    Ok::<ReadingView, Seq<char>>(final(self)@),
                ) == line_read(old(o)@, old(self)@, line@),
                Err(e) => (final(o)@, Err::<ReadingView, Seq<char>>(e@)) == line_read(
                    old(o)@,
                    old(self)@,
                    line@,
                ),
            },
    {
        match text::strip_prefix(line, "--camera-id=") {
            Some(rest) => {
                self.finish();
                match parse_lens(o, &rest) {
                    Err(e) => Err(e),
                    Ok(lens) => {
                        self.current = Some(lens);
                        self.high_speed = false;
                        Ok(())
                    },
                }
            },
            None => {
                if text::starts_with(line, "High speed capture") {
                    self.high_speed = true;
                    assert(self@.lenses == old(self)@.lenses);
                    return Ok(());
                }
                if self.high_speed {
                    return Ok(());
                }
                match text::strip_prefix(line, "- ") {
                    None => Ok(()),
                    Some(size) => {
                        if parse_size(&size).is_none() {
                            return Err(
                                text::of("invalid lens resolution ").concat(&text::quoted(&size)),
                            );
                        }
                        let mut current: Option<Lens> = None;
                        std::mem::swap(&mut current, &mut self.current);
                        match current {
                            None => Err(
                                text::of("lens resolution without a lens: ").concat(
                                    &text::quoted(&size),
                                ),
                            ),
                            Some(mut lens) => {
                                let ghost before = lens@;
                                lens.resolutions.push(size);
                                assert(lens@.resolutions =~= before.resolutions.push(size@));
                                self.current = Some(lens);
                                Ok(())
                            },
                        }
                    },
                }
            },
        }
    }
}

/// Reads scrcpy's list of cameras.
pub fn parse(o: &mut Outside, list: &str) -> (r: Result<Vec<Lens>, String>)
    ensures
        match r {
            Ok(lenses) => usable_all(lenses.deep_view()) && (
                final(o)@,
                Ok::<Seq<LensView>, Seq<char>>(lenses.deep_view()),
            ) == lenses_read(old(o)@, list@),
            Err(e) => (final(o)@, Err::<Seq<LensView>, Seq<char>>(e@)) == lenses_read(
                old(o)@,
                list@,
            ),
        },
{
    let lines = text::lines(list);
    let ghost all = lines.deep_view();
    let mut reading = Reading { lenses: Vec::new(), current: None, high_speed: false };
    assert(reading.lenses.deep_view() =~= Seq::empty());
    let ghost start = reading@;
    let mut i: usize = 0;
    assert(all.skip(0) =~= all);
    while i < lines.len()
        invariant
            i <= lines.len(),
            all == lines.deep_view(),
            all == text_lines(list@),
            start == (ReadingView { lenses: Seq::empty(), current: None, high_speed: false }),
            all_sound(reading@),
            lines_read(old(o)@, start, all) == lines_read(o@, reading@, all.skip(i as int)),
        decreases lines.len() - i,
    {
        assert(all.skip(i as int)[0] == lines[i as int]@);
        assert(all.skip(i as int).drop_first() =~= all.skip(i + 1));
        let line = text::trim(&lines[i]);
        match reading.read(o, &line) {
            Err(e) => {
                return Err(e);
            },
            Ok(_) => {},
        }
        i = i + 1;
    }
    let ghost end = reading@;
    reading.finish();
    let lenses = reading.lenses;
    assert(lenses.deep_view() == listed(end));
    let mut j: usize = 0;
    while j < lenses.len()
        invariant
            j <= lenses.len(),
            lenses.deep_view() == listed(end),
            lines_read(
                old(o)@,
                ReadingView { lenses: Seq::empty(), current: None, high_speed: false },
                text_lines(list@),
            ) == (o@, Ok::<ReadingView, Seq<char>>(end)),
            forall|k: int| 0 <= k < j ==> (#[trigger] listed(end)[k]).resolutions.len() > 0,
        decreases lenses.len() - j,
    {
        assert(listed(end)[j as int] == lenses[j as int]@);
        if lenses[j].resolutions.len() == 0 {
            return Err(text::of("scrcpy returned no usable camera capabilities"));
        }
        j = j + 1;
    }
    if lenses.len() == 0 {
        return Err(text::of("scrcpy returned no usable camera capabilities"));
    }
    Ok(lenses)
}

/// The command that lists a phone's cameras.
pub open spec fn list_command(serial: Seq<char>) -> Seq<Seq<char>> {
    seq!["scrcpy"@, "-s"@, serial, "--video-source=camera"@, "--list-camera-sizes"@]
}

/// A phone's lenses, as scrcpy lists them; or why they are not known.
#[verifier::opaque]
pub open spec fn inspected(o: OutsideView, serial: Seq<char>) -> (
    OutsideView,
    Result<Seq<LensView>, Seq<char>>,
) {
    let (o, outcome) = o.run(list_command(serial), true);
    match outcome {
        OutcomeView::Failed { error, .. } => (o, Err("could not run scrcpy: "@ + error)),
        OutcomeView::Exited { success, status, stdout, stderr } => if success {
            lenses_read(o, lossy_text(stdout) + "\n"@ + lossy_text(stderr))
        } else {
            (o, Err("scrcpy could not list cameras ("@ + status + ")"@))
        },
    }
}

/// Asks scrcpy for a phone's lenses.
pub fn inspect(o: &mut Outside, serial: &str) -> (r: Result<Vec<Lens>, String>)
    ensures
        match r {
            Ok(lenses) => usable_all(lenses.deep_view()) && (
                final(o)@,
                Ok::<Seq<LensView>, Seq<char>>(lenses.deep_view()),
            ) == inspected(old(o)@, serial@),
            Err(e) => (final(o)@, Err::<Seq<LensView>, Seq<char>>(e@)) == inspected(
                old(o)@,
                serial@,
            ),
        },
{
    proof {
        reveal(inspected);
    }
    let argv = vec![
        text::of("scrcpy"),
        text::of("-s"),
        text::of(serial),
        text::of("--video-source=camera"),
        text::of("--list-camera-sizes"),
    ];
    assert(argv.deep_view() =~= list_command(serial@));
    match o.run(argv, true) {
        Outcome::Failed { error, .. } => Err(text::of("could not run scrcpy: ").concat(&error)),
        Outcome::Exited { success, status, stdout, stderr } => {
            if !success {
                return Err(
                    text::of("scrcpy could not list cameras (").concat(&status).concat(")"),
                );
            }
            let list = text::decoded(&stdout).concat("\n").concat(&text::decoded(&stderr));
            parse(o, &list)
        },
    }
}

// ---------------------------------------------------------------------------
// Pixels

pub open spec fn even(n: u32) -> u32 {
    (n - n % 2) as u32
}

fn even_down(n: u32) -> (r: u32)
    ensures
        r == even(n),
{
    n - n % 2
}

/// One side of a rectangle in pixels: how far it reaches and where it begins,
/// both even where the frame is, neither beyond the frame.
pub open spec fn span(begin: int, extent: int, frame: u32) -> (u32, u32) {
    let wanted = even(floor_scaled(normalized(begin), frame));
    let at = if wanted <= frame - 2 {
        wanted
    } else {
        (frame - 2) as u32
    };
    let end = round_scaled(normalized_sum(begin, extent), frame);
    let reach = even(
        if end > at {
            (end - at) as u32
        } else {
            0
        },
    );
    let least = if reach >= 2 {
        reach
    } else {
        2
    };
    let most = even((frame - at) as u32);
    (
        if least <= most {
            least
        } else {
            most
        },
        at,
    )
}

fn side(begin: u64, extent: u64, frame: u32) -> (r: (u32, u32))
    requires
        frame >= 2,
    ensures
        r == span(rank(begin), rank(extent), frame),
{
    let wanted = even_down(number::floor_part(number::part(begin), frame));
    let at: u32 = if wanted <= frame - 2 {
        wanted
    } else {
        frame - 2
    };
    let end: u32 = number::round_part(number::part_of_sum(begin, extent), frame);
    let reach = even_down(
        if end > at {
            end - at
        } else {
            0
        },
    );
    let least: u32 = if reach >= 2 {
        reach
    } else {
        2
    };
    let most = even_down(frame - at);
    (
        if least <= most {
            least
        } else {
            most
        },
        at,
    )
}

/// The rectangle of the current lens in pixels: width, height, x and y.
pub open spec fn pixels(settings: CameraSettingsView) -> Option<(u32, u32, u32, u32)> {
    match (lookup(settings.crops, settings.lens), size_of(settings.resolution)) {
        (Some(crop), Some((w, h))) => {
            let across = span(crop.x, crop.width, w);
            let down = span(crop.y, crop.height, h);
            Some((across.0, down.0, across.1, down.1))
        },
        _ => None,
    }
}

pub fn crop_pixels(settings: &CameraSettings) -> (r: Option<(u32, u32, u32, u32)>)
    ensures
        r == pixels(settings@),
{
    let crop = match settings.crops.get(&settings.lens) {
        None => return None,
        Some(crop) => crop,
    };
    let (frame_width, frame_height) = match parse_size(&settings.resolution) {
        None => return None,
        Some(size) => size,
    };
    let (width, x) = side(crop.x, crop.width, frame_width);
    let (height, y) = side(crop.y, crop.height, frame_height);
    Some((width, height, x, y))
}

pub open spec fn sized(width: u32, height: u32) -> Seq<char> {
    decimal(width as nat) + "x"@ + decimal(height as nat)
}

/// The size of the frames that some settings give.
pub open spec fn frame_size(settings: CameraSettingsView) -> Seq<char> {
    match pixels(settings) {
        Some((width, height, _, _)) => sized(width, height),
        None => settings.resolution,
    }
}

pub fn output_size(settings: &CameraSettings) -> (r: String)
    ensures
        r@ == frame_size(settings@),
{
    match crop_pixels(settings) {
        Some((width, height, _, _)) => text::number(width as u64).concat("x").concat(
            &text::number(height as u64),
        ),
        None => settings.resolution.copy(),
    }
}

// ---------------------------------------------------------------------------
// Laws

/// A rectangle's side is even, at least two pixels, and within the frame,
/// whatever rectangle was asked for.
pub proof fn crops_stay_in_the_frame(begin: int, extent: int, frame: u32)
    requires
        frame >= 2,
    ensures
        span(begin, extent, frame).0 >= 2,
        span(begin, extent, frame).0 % 2 == 0,
        span(begin, extent, frame).0 + span(begin, extent, frame).1 <= frame,
        frame % 2 == 0 ==> span(begin, extent, frame).1 % 2 == 0,
{
}

/// A ratio is the size's own and in lowest terms: its two parts stand to each
/// other as the width to the height, and share no divisor above one.
pub proof fn ratios_are_in_lowest_terms(size: Seq<char>, width: u32, height: u32)
    requires
        size_of(size) == Some((width, height)),
    ensures
        ({
            let (p, q) = shape(width, height);
            &&& ratio_of(size) == Some(decimal(p) + ":"@ + decimal(q))
            &&& p > 0 && q > 0
            &&& p * height == q * width
            &&& forall|d: nat| d > 0 && p % d == 0 && #[trigger] (q % d) == 0 ==> d == 1
        }),
{
    let (p, q) = shape(width, height);
    let r = common(width as nat, height as nat);
    lemma_lowest(width as nat, height as nat);
    assert(p * height == q * width) by (nonlinear_arith)
        requires
            width == r * p,
            height == r * q,
    ;
    the_common_divisor_is_the_greatest(p, q);
    assert forall|d: nat| d > 0 && p % d == 0 && #[trigger] (q % d) == 0 implies d == 1 by {
        assert(common(p, q) % d == 0);
    }
}

/// Two sizes have the same ratio exactly where they have the same shape.
pub proof fn one_shape_is_one_ratio(
    first: Seq<char>,
    second: Seq<char>,
    w1: u32,
    h1: u32,
    w2: u32,
    h2: u32,
)
    requires
        size_of(first) == Some((w1, h1)),
        size_of(second) == Some((w2, h2)),
    ensures
        ratio_of(first) == ratio_of(second) <==> w1 * h2 == w2 * h1,
{
    lemma_one_proportion(w1 as nat, h1 as nat, w2 as nat, h2 as nat);
    let (p, q) = shape(w1, h1);
    let (x, y) = shape(w2, h2);
    if ratio_of(first) == ratio_of(second) {
        reveal_strlit(":");
        text::lemma_decimal(p);
        text::lemma_decimal(q);
        text::lemma_decimal(x);
        text::lemma_decimal(y);
        let s = decimal(p) + ":"@ + decimal(q);
        let t = decimal(x) + ":"@ + decimal(y);
        let (m, n) = (decimal(p).len() as int, decimal(x).len() as int);
        assert(s[m] == ':' && t[n] == ':');
        assert(m == n) by {
            if m < n {
                assert(t[m] == decimal(x)[m]);
            }
            if n < m {
                assert(s[n] == decimal(p)[n]);
            }
        }
        assert(decimal(p) =~= s.take(m));
        assert(decimal(x) =~= t.take(m));
        assert(decimal(q) =~= s.skip(m + 1));
        assert(decimal(y) =~= t.skip(m + 1));
        text::lemma_decimal_value(p);
        text::lemma_decimal_value(q);
        text::lemma_decimal_value(x);
        text::lemma_decimal_value(y);
    }
}

/// A phone's settings are ones that its lenses allow from the beginning.
pub proof fn opened_settings_are_allowed(
    phone: Seq<char>,
    lenses: Seq<LensView>,
    saved: Option<CameraSettingsView>,
)
    requires
        usable_all(lenses),
    ensures
        allowed(opened(phone, lenses, saved).applied, lenses),
        opened(phone, lenses, saved).pending == opened(phone, lenses, saved).applied,
        comparable(opened(phone, lenses, saved).applied) ==> !opened(
            phone,
            lenses,
            saved,
        ).has_pending_changes,
        opened(phone, lenses, saved).rejected is None,
{
    let lens = lenses[0];
    assert(usable(lens));
    lemma_first(lenses, lens_named(lens.id));
    lemma_preferred(lens);
    assert(lens_named(lens.id)(lenses[0]));
}

proof fn lemma_preferred(lens: LensView)
    requires
        usable(lens),
    ensures
        lens.resolutions.contains(preferred_of(lens.resolutions)),
        ratio_of(preferred_of(lens.resolutions)) is Some,
        lens.frame_rates.contains(preferred_rate(lens.frame_rates)),
{
    let sizes = lens.resolutions;
    if sizes.contains("1280x720"@) {
        let i = choose|i: int| 0 <= i < sizes.len() && sizes[i] == "1280x720"@;
        assert(size_of(sizes[i]) is Some);
    } else {
        assert(sizes[0] == preferred_of(sizes));
        assert(size_of(sizes[0]) is Some);
    }
    assert(lens.frame_rates[0] == lens.frame_rates[0]);
}

/// Whatever is changed, the pending settings stay ones that the lenses allow,
/// and the applied ones stay as they were.
pub proof fn changes_stay_allowed(
    state: SettingsStateView,
    name: Seq<char>,
    value: SettingValueView,
)
    requires
        usable_all(state.lenses),
        allowed(state.pending, state.lenses),
    ensures
        changed(state, name, value) matches Ok(next) ==> {
            &&& allowed(next.pending, next.lenses)
            &&& next.applied == state.applied
            &&& next.lenses == state.lenses
            &&& next.phone == state.phone
            &&& next.rejected is None
            &&& next.has_pending_changes == !equals(next.pending, next.applied)
            &&& comparable(state.pending) ==> comparable(next.pending)
        },
{
    let pending = state.pending;
    lemma_names();
    lemma_first(state.lenses, lens_named(pending.lens));
    let lens = lens_of(state.lenses, pending.lens)->0;
    assert(usable(lens));
    match with_change(state, name, value) {
        Err(_) => {},
        Ok(next) => {
            if name == "lens"@ {
                let id = json_string(value.json)->0;
                lemma_first(state.lenses, lens_named(id));
                let other = lens_of(state.lenses, id)->0;
                assert(usable(other));
                assert(other.id == id);
                lemma_preferred(other);
                if other.resolutions.contains(pending.resolution) {
                    let i = choose|i: int|
                        0 <= i < other.resolutions.len() && other.resolutions[i]
                            == pending.resolution;
                    assert(size_of(other.resolutions[i]) is Some);
                }
            } else if name == "aspect_ratio"@ {
                let ratio = json_string(value.json)->0;
                let sizes = kept(lens.resolutions, shaped(ratio));
                lemma_sizes_kept(lens, ratio);
                if sizes.contains(pending.resolution) {
                    let i = choose|i: int| 0 <= i < sizes.len() && sizes[i] == pending.resolution;
                    assert(lens.resolutions.contains(sizes[i]));
                } else if sizes.contains("1280x720"@) {
                    let i = choose|i: int| 0 <= i < sizes.len() && sizes[i] == "1280x720"@;
                    assert(lens.resolutions.contains(sizes[i]));
                } else {
                    assert(lens.resolutions.contains(sizes[0]));
                }
            } else if name == "crop"@ && comparable(pending) {
                assert forall|crop: CropView| #[trigger]
                    next.crops.contains_value(crop) implies comparable_crop(crop) by {
                    let k = choose|k: Seq<char>| next.crops.contains_key(k) && next.crops[k] == crop;
                    if k != pending.lens {
                        assert(pending.crops.contains_key(k) && pending.crops[k] == crop);
                        assert(pending.crops.contains_value(crop));
                    }
                }
            }
        },
    }
}

/// Discarding undoes every pending change: nothing is pending after it, and
/// what is applied is as it was.
pub proof fn discarding_undoes_changes(
    state: SettingsStateView,
    name: Seq<char>,
    value: SettingValueView,
)
    ensures
        changed(state, name, value) matches Ok(next) ==> discarded(next) == discarded(state),
        discarded(state).pending == state.applied,
        discarded(state).applied == state.applied,
        comparable(state.applied) ==> !discarded(state).has_pending_changes,
{
}

/// A refused Apply leaves the applied settings as they were and says why.
pub proof fn refusing_keeps_what_is_applied(state: SettingsStateView, message: Seq<char>)
    ensures
        refused(state, message).applied == state.applied,
        refused(state, message).pending == state.applied,
        comparable(state.applied) ==> !refused(state, message).has_pending_changes,
        refused(state, message).rejected == Some(message),
        noted(state, message).applied == state.applied,
        noted(state, message).pending == state.pending,
        noted(state, message).rejected == Some(message),
{
}

/// An accepted Apply puts exactly the pending settings in force.
pub proof fn accepting_applies_what_is_pending(state: SettingsStateView)
    ensures
        accepted(state).applied == state.pending,
        accepted(state).pending == state.pending,
        comparable(state.pending) ==> !accepted(state).has_pending_changes,
        accepted(state).rejected is None,
{
}

/// Each lens keeps a rectangle of its own: changing one lens's leaves the
/// others' as they were.
pub proof fn crops_are_per_lens(
    state: SettingsStateView,
    value: SettingValueView,
    other: Seq<char>,
)
    requires
        other != state.pending.lens,
    ensures
        changed(state, "crop"@, value) matches Ok(next) ==> lookup(next.pending.crops, other)
            == lookup(state.pending.crops, other),
{
    lemma_crop_name();
}

proof fn lemma_crop_name()
    ensures
        "crop"@ != "lens"@,
        "crop"@ != "resolution"@,
        "crop"@ != "frame_rate"@,
        "crop"@ != "aspect_ratio"@,
        "crop"@ != "zoom"@,
{
    reveal_strlit("crop");
    reveal_strlit("lens");
    reveal_strlit("resolution");
    reveal_strlit("frame_rate");
    reveal_strlit("aspect_ratio");
    reveal_strlit("zoom");
    assert("crop"@[0] == 'c' && "lens"@[0] == 'l' && "zoom"@[0] == 'z');
}

/// Whatever was listed and accepted is usable.
pub proof fn sound_list(o: OutsideView, serial: Seq<char>)
    ensures
        inspected(o, serial).1 matches Ok(lenses) ==> usable_all(lenses),
{
    reveal(inspected);
    let (o1, outcome) = o.run(list_command(serial), true);
    match outcome {
        OutcomeView::Exited { stdout, stderr, .. } => {
            let list = lossy_text(stdout) + "\n"@ + lossy_text(stderr);
            let start = ReadingView { lenses: Seq::empty(), current: None, high_speed: false };
            lemma_lines_sound(o1, start, text_lines(list));
        },
        _ => {},
    }
}

proof fn lemma_pieces_some(s: Seq<char>, c: char)
    ensures
        pieces(s, c).len() > 0,
{
}

proof fn lemma_rates_len(texts: Seq<Seq<char>>)
    ensures
        rates_of(texts) matches Some(rates) ==> rates.len() == texts.len(),
    decreases texts.len(),
{
    if texts.len() > 0 {
        lemma_rates_len(texts.drop_last());
    }
}

proof fn lemma_lens_sound(o: OutsideView, rest: Seq<char>)
    ensures
        lens_line(o, rest).1 matches Ok(lens) ==> sound(lens),
{
    let end = text::prefix_len(rest, solid());
    match details_of(rest.skip(end)) {
        Some(details) => match enclosed(details, "fps={"@, "}"@) {
            Some(rates) => {
                lemma_pieces_some(rates, ',');
                lemma_rates_len(parts(rates));
            },
            None => {},
        },
        None => {},
    }
}

proof fn lemma_lines_sound(o: OutsideView, reading: ReadingView, lines: Seq<Seq<char>>)
    requires
        all_sound(reading),
    ensures
        lines_read(o, reading, lines).1 matches Ok(end) ==> all_sound(end),
    decreases lines.len(),
{
    if lines.len() > 0 {
        let line = trimmed(lines[0]);
        match without_prefix(line, "--camera-id="@) {
            Some(rest) => lemma_lens_sound(o, rest),
            None => {},
        }
        let (o1, next) = line_read(o, reading, line);
        match next {
            Ok(reading) => lemma_lines_sound(o1, reading, lines.drop_first()),
            Err(_) => {},
        }
    }
}

/// Whether a lens is the one that goes by an id: the first with it.
pub open spec fn goes_by_id(lenses: Seq<LensView>, id: Seq<char>, i: int) -> bool {
    &&& 0 <= i < lenses.len()
    &&& lenses[i].id == id
    &&& forall|j: int| 0 <= j < i ==> (#[trigger] lenses[j]).id != id
}

proof fn lemma_goes_by_id(lenses: Seq<LensView>, id: Seq<char>, i: int)
    requires
        goes_by_id(lenses, id, i),
    ensures
        lens_of(lenses, id) == Some(lenses[i]),
{
    lemma_first(lenses, lens_named(id));
    assert(lens_named(id)(lenses[i]));
    if let Some(j) = first(lenses, lens_named(id)) {
        assert(lens_named(id)(lenses[j]));
    }
}

/// Whether a size is the one to begin with: 720p where it is listed, else the
/// first.
pub open spec fn is_preferred_size(size: Seq<char>, sizes: Seq<Seq<char>>) -> bool {
    &&& sizes.contains("1280x720"@) ==> size == "1280x720"@
    &&& !sizes.contains("1280x720"@) ==> size == sizes[0]
}

/// Whether a rate is the one to begin with: 30 where it is listed, else the
/// first.
pub open spec fn is_preferred_rate(rate: u32, rates: Seq<u32>) -> bool {
    &&& rates.contains(30u32) ==> rate == 30
    &&& !rates.contains(30u32) ==> rate == rates[0]
}

/// Another lens keeps whatever of the pending settings it offers too: a size and
/// a frame rate that it lists, a zoom in its range, and every lens's rectangle.
/// A zoom beyond its range comes to the nearer end; a size or a rate that it
/// does not list, to the one it begins with. An id that no lens has is refused.
pub proof fn another_lens_keeps_what_it_offers(
    state: SettingsStateView,
    value: SettingValueView,
    id: Seq<char>,
    i: int,
)
    requires
        usable_all(state.lenses),
        json_string(value.json) == Some(id),
    ensures
        (forall|j: int| 0 <= j < state.lenses.len() ==> (#[trigger] state.lenses[j]).id != id)
            ==> changed(state, "lens"@, value) is Err,
        goes_by_id(state.lenses, id, i) ==> (changed(state, "lens"@, value) matches Ok(next) && {
            let lens = state.lenses[i];
            let old = state.pending;
            let new = next.pending;
            &&& new.lens == id
            &&& new.crops == old.crops
            &&& lens.resolutions.contains(old.resolution) ==> new.resolution == old.resolution
            &&& !lens.resolutions.contains(old.resolution) ==> is_preferred_size(
                new.resolution,
                lens.resolutions,
            )
            &&& ratio_of(new.resolution) == Some(new.aspect_ratio)
            &&& lens.frame_rates.contains(old.frame_rate) ==> new.frame_rate == old.frame_rate
            &&& !lens.frame_rates.contains(old.frame_rate) ==> is_preferred_rate(
                new.frame_rate,
                lens.frame_rates,
            )
            &&& rank(lens.zoom_min.bits) <= rank(old.zoom.bits) <= rank(lens.zoom_max.bits)
                ==> new.zoom == old.zoom
            &&& ordered(rank(old.zoom.bits)) && rank(old.zoom.bits) < rank(lens.zoom_min.bits)
                ==> new.zoom == lens.zoom_min
            &&& ordered(rank(old.zoom.bits)) && rank(old.zoom.bits) > rank(lens.zoom_max.bits)
                ==> new.zoom == lens.zoom_max
        }),
{
    lemma_first(state.lenses, lens_named(id));
    if let Some(j) = first(state.lenses, lens_named(id)) {
        assert(lens_named(id)(state.lenses[j]));
    }
    if goes_by_id(state.lenses, id, i) {
        lemma_goes_by_id(state.lenses, id, i);
        let lens = state.lenses[i];
        assert(usable(lens));
        lemma_preferred(lens);
        if lens.resolutions.contains(state.pending.resolution) {
            let j = choose|j: int|
                0 <= j < lens.resolutions.len() && lens.resolutions[j] == state.pending.resolution;
            assert(size_of(lens.resolutions[j]) is Some);
        }
    }
}

/// A size is taken exactly where the pending lens lists it and it has the
/// pending shape; it is then the pending size, and nothing else changes.
pub proof fn a_size_is_taken_where_it_is_offered(
    state: SettingsStateView,
    value: SettingValueView,
    i: int,
)
    requires
        goes_by_id(state.lenses, state.pending.lens, i),
    ensures
        ({
            let asked = json_string(value.json);
            let r = changed(state, "resolution"@, value);
            &&& r is Ok <==> (asked matches Some(size) && state.lenses[i].resolutions.contains(size)
                && ratio_of(size) == Some(state.pending.aspect_ratio))
            &&& r matches Ok(next) ==> Some(next.pending.resolution) == asked && next.pending == (
            CameraSettingsView { resolution: next.pending.resolution, ..state.pending })
        }),
{
    lemma_names();
    lemma_goes_by_id(state.lenses, state.pending.lens, i);
}

/// A frame rate is taken exactly where the pending lens lists it; it is then the
/// pending rate, and nothing else changes.
pub proof fn a_rate_is_taken_where_it_is_offered(
    state: SettingsStateView,
    value: SettingValueView,
    i: int,
)
    requires
        goes_by_id(state.lenses, state.pending.lens, i),
    ensures
        ({
            let asked = json_natural(value.json);
            let r = changed(state, "frame_rate"@, value);
            &&& r is Ok <==> (asked matches Some(rate) && rate <= u32::MAX
                && state.lenses[i].frame_rates.contains(rate as u32))
            &&& r matches Ok(next) ==> asked == Some(next.pending.frame_rate as u64) && next.pending
                == (CameraSettingsView { frame_rate: next.pending.frame_rate, ..state.pending })
        }),
{
    lemma_names();
    lemma_goes_by_id(state.lenses, state.pending.lens, i);
}

/// A zoom is taken exactly where it is a number in the pending lens's range; it
/// is then the pending zoom, and nothing else changes.
pub proof fn a_zoom_is_taken_where_it_is_in_range(
    state: SettingsStateView,
    value: SettingValueView,
    i: int,
)
    requires
        goes_by_id(state.lenses, state.pending.lens, i),
    ensures
        ({
            let lens = state.lenses[i];
            let r = changed(state, "zoom"@, value);
            &&& r is Ok <==> (value.number matches Some(zoom) && finite(rank(zoom.bits)) && rank(
                lens.zoom_min.bits,
            ) <= rank(zoom.bits) <= rank(lens.zoom_max.bits))
            &&& r matches Ok(next) ==> Some(next.pending.zoom) == value.number && next.pending == (
            CameraSettingsView { zoom: next.pending.zoom, ..state.pending })
        }),
{
    lemma_names();
    lemma_goes_by_id(state.lenses, state.pending.lens, i);
}

/// A shape is taken exactly where the pending lens lists a size that has it. The
/// pending size stays if it is one, and is otherwise one that has it; nothing
/// else changes.
pub proof fn a_shape_is_taken_where_it_is_offered(
    state: SettingsStateView,
    value: SettingValueView,
    i: int,
)
    requires
        usable_all(state.lenses),
        goes_by_id(state.lenses, state.pending.lens, i),
    ensures
        ({
            let sizes = state.lenses[i].resolutions;
            let asked = json_string(value.json);
            let r = changed(state, "aspect_ratio"@, value);
            &&& r is Ok <==> (asked matches Some(ratio) && exists|size: Seq<char>| #[trigger]
                sizes.contains(size) && ratio_of(size) == Some(ratio))
            &&& r matches Ok(next) ==> {
                let new = next.pending;
                &&& Some(new.aspect_ratio) == asked
                &&& sizes.contains(new.resolution)
                &&& ratio_of(new.resolution) == Some(new.aspect_ratio)
                &&& sizes.contains(state.pending.resolution) && ratio_of(state.pending.resolution)
                    == Some(new.aspect_ratio) ==> new.resolution == state.pending.resolution
                &&& new == (CameraSettingsView {
                    aspect_ratio: new.aspect_ratio,
                    resolution: new.resolution,
                    ..state.pending
                })
            }
        }),
{
    lemma_names();
    lemma_goes_by_id(state.lenses, state.pending.lens, i);
    let lens = state.lenses[i];
    assert(usable(lens));
    if let Some(ratio) = json_string(value.json) {
        let sizes = kept(lens.resolutions, shaped(ratio));
        lemma_kept(lens.resolutions, shaped(ratio));
        if sizes.len() > 0 {
            assert(sizes.contains(sizes[0]));
            assert(lens.resolutions.contains(sizes[0]));
        } else {
            assert forall|size: Seq<char>| #[trigger]
                lens.resolutions.contains(size) implies ratio_of(size) != Some(ratio) by {
                if ratio_of(size) == Some(ratio) {
                    assert(sizes.contains(size));
                }
            }
        }
    }
}

/// A rectangle is taken exactly where it begins inside the frame and has an
/// extent, all in finite numbers; the pending lens then has it. Taking it away
/// leaves the lens none. Nothing else changes either way.
pub proof fn a_rectangle_is_taken_where_it_begins_inside(
    state: SettingsStateView,
    value: SettingValueView,
)
    ensures
        ({
            let lens = state.pending.lens;
            let r = changed(state, "crop"@, value);
            &&& value.json == "null"@ ==> (r matches Ok(next) && lookup(next.pending.crops, lens)
                is None)
            &&& value.json != "null"@ ==> {
                &&& r is Ok <==> (value.crop matches Some(c) && {
                    &&& finite(c.x) && finite(c.y) && finite(c.width) && finite(c.height)
                    &&& 0 <= c.x < ONE && 0 <= c.y < ONE && 0 < c.width && 0 < c.height
                })
                &&& r matches Ok(next) ==> lookup(next.pending.crops, lens) == value.crop
            }
            &&& r matches Ok(next) ==> {
                &&& next.pending == (CameraSettingsView {
                    crops: next.pending.crops,
                    ..state.pending
                })
                &&& forall|other: Seq<char>|
                    other != lens ==> #[trigger] lookup(next.pending.crops, other) == lookup(
                        state.pending.crops,
                        other,
                    )
            }
        }),
{
    lemma_crop_name();
}

/// No setting has any other name.
pub proof fn other_names_are_refused(
    state: SettingsStateView,
    name: Seq<char>,
    value: SettingValueView,
)
    requires
        name != "lens"@,
        name != "resolution"@,
        name != "frame_rate"@,
        name != "aspect_ratio"@,
        name != "zoom"@,
        name != "crop"@,
    ensures
        changed(state, name, value) is Err,
{
}

/// The sizes on offer are those that the pending lens lists in the pending
/// shape, after whatever was done.
pub proof fn the_sizes_on_offer_have_the_pending_shape(
    state: SettingsStateView,
    i: int,
    size: Seq<char>,
)
    requires
        state == derived(state),
        goes_by_id(state.lenses, state.pending.lens, i),
    ensures
        state.offered_resolutions.contains(size) <==> state.lenses[i].resolutions.contains(size)
            && ratio_of(size) == Some(state.pending.aspect_ratio),
{
    lemma_goes_by_id(state.lenses, state.pending.lens, i);
    lemma_kept(state.lenses[i].resolutions, shaped(state.pending.aspect_ratio));
}

/// Whatever is done to a phone's settings leaves the sizes on offer and whether
/// anything is pending as they follow from the rest.
pub proof fn what_follows_is_always_said(
    state: SettingsStateView,
    name: Seq<char>,
    value: SettingValueView,
    message: Seq<char>,
    phone: Seq<char>,
    lenses: Seq<LensView>,
    saved: Option<CameraSettingsView>,
)
    ensures
        changed(state, name, value) matches Ok(next) ==> next == derived(next),
        discarded(state) == derived(discarded(state)),
        accepted(state) == derived(accepted(state)),
        refused(state, message) == derived(refused(state, message)),
        noted(state, message) == derived(noted(state, message)),
        opened(phone, lenses, saved) == derived(opened(phone, lenses, saved)),
        derived(state).has_pending_changes <==> !equals(state.pending, state.applied),
        derived(state).pending == state.pending && derived(state).applied == state.applied
            && derived(state).lenses == state.lenses && derived(state).phone == state.phone
            && derived(state).rejected == state.rejected,
{
}

/// A phone's settings come back as they were saved where its lenses still allow
/// them: the lens is there, lists the size and the rate, has the zoom in its
/// range, and the shape is the size's own. Otherwise the phone begins with its
/// first lens, unzoomed and uncropped.
pub proof fn saved_settings_come_back(
    phone: Seq<char>,
    lenses: Seq<LensView>,
    saved: Option<CameraSettingsView>,
    i: int,
)
    requires
        usable_all(lenses),
    ensures
        ({
            let state = opened(phone, lenses, saved);
            let own = state.applied;
            &&& state.phone == phone
            &&& state.lenses == lenses
            &&& saved matches Some(s) ==> goes_by_id(lenses, s.lens, i) ==> {
                let fits = {
                    &&& lenses[i].resolutions.contains(s.resolution)
                    &&& lenses[i].frame_rates.contains(s.frame_rate)
                    &&& rank(lenses[i].zoom_min.bits) <= rank(s.zoom.bits) <= rank(
                        lenses[i].zoom_max.bits,
                    )
                    &&& ratio_of(s.resolution) == Some(s.aspect_ratio)
                };
                &&& fits ==> own == s
                &&& !fits ==> begins_with(own, lenses[0])
            }
            &&& saved is None ==> begins_with(own, lenses[0])
            &&& (saved matches Some(s) && forall|j: int|
                0 <= j < lenses.len() ==> (#[trigger] lenses[j]).id != s.lens) ==> begins_with(
                own,
                lenses[0],
            )
        }),
{
    assert(usable(lenses[0]));
    lemma_preferred(lenses[0]);
    if let Some(s) = saved {
        lemma_first(lenses, lens_named(s.lens));
        if let Some(j) = first(lenses, lens_named(s.lens)) {
            assert(lens_named(s.lens)(lenses[j]));
        }
        if goes_by_id(lenses, s.lens, i) {
            lemma_goes_by_id(lenses, s.lens, i);
        }
    }
}

/// Whether some settings are those that a lens begins with.
pub open spec fn begins_with(settings: CameraSettingsView, lens: LensView) -> bool {
    &&& settings.lens == lens.id
    &&& is_preferred_size(settings.resolution, lens.resolutions)
    &&& is_preferred_rate(settings.frame_rate, lens.frame_rates)
    &&& ratio_of(settings.resolution) == Some(settings.aspect_ratio)
    &&& settings.zoom == lens.zoom_min
    &&& settings.crops =~= Map::empty()
}

/// A size is read back as it was written.
pub proof fn sizes_are_read_back(width: u32, height: u32)
    requires
        width >= 2,
        height >= 2,
    ensures
        size_of(sized(width, height)) == Some((width, height)),
{
    let w = decimal(width as nat);
    let h = decimal(height as nat);
    let s = sized(width, height);
    reveal_strlit("x");
    text::lemma_decimal(width as nat);
    text::lemma_decimal(height as nat);
    text::numbers_are_read_back(width as nat, u32::MAX as nat);
    text::numbers_are_read_back(height as nat, u32::MAX as nat);
    text::halves_make_the_whole(s, "x"@);
    let n = w.len() as int;
    assert(s[n] == 'x');
    assert(s.subrange(n, n + 1) =~= "x"@);
    let (a, b) = halves(s, "x"@)->0;
    let m = a.len() as int;
    assert((a + "x"@ + b)[m] == 'x');
    if m < n {
        assert(s[m] == w[m]);
        assert(text::is_digit(w[m]));
    } else if m > n {
        assert(s.skip(n).take(1) =~= "x"@);
    }
    assert(a =~= w) by {
        assert(s.take(n) =~= w && s.take(m) =~= a);
    }
    assert(b =~= h) by {
        assert(s.skip(n + 1) =~= h && s.skip(m + 1) =~= b);
    }
}

/// A side of a rectangle begins at most a pixel before where it was asked to,
/// and ends at most a pixel before where it was asked to end, as far as the
/// frame and the least extent of two pixels leave room.
pub proof fn crops_lie_where_they_were_asked(begin: int, extent: int, frame: u32)
    requires
        frame >= 2,
    ensures
        ({
            let (reach, at) = span(begin, extent, frame);
            let from = floor_scaled(normalized(begin), frame);
            let to = round_scaled(normalized_sum(begin, extent), frame);
            &&& from <= frame - 2 ==> at <= from <= at + 1
            &&& from > frame - 2 ==> frame - 3 <= at <= frame - 2
            &&& at + 2 <= to <= frame ==> at + reach <= to <= at + reach + 1
            &&& to < at + 2 ==> reach == 2
            &&& to > frame ==> at + reach <= frame <= at + reach + 1
        }),
{
}

/// Settings are equal exactly where they say the same: the lens, the size, the
/// rate, the shape, the zoom as a number, and every lens's rectangle.
pub proof fn equal_settings_say_the_same(a: CameraSettingsView, b: CameraSettingsView)
    requires
        comparable(a),
    ensures
        equals(a, b) <==> {
            &&& a.lens == b.lens
            &&& a.resolution == b.resolution
            &&& a.frame_rate == b.frame_rate
            &&& a.aspect_ratio == b.aspect_ratio
            &&& rank(a.zoom.bits) == rank(b.zoom.bits)
            &&& forall|lens: Seq<char>| #[trigger] lookup(a.crops, lens) == lookup(b.crops, lens)
        },
{
    if forall|lens: Seq<char>| #[trigger] lookup(a.crops, lens) == lookup(b.crops, lens) {
        assert forall|lens: Seq<char>| #[trigger] a.crops.dom().contains(lens)
            == b.crops.dom().contains(lens) by {
            assert(lookup(a.crops, lens) == lookup(b.crops, lens));
        }
        assert(a.crops.dom() =~= b.crops.dom());
        assert forall|lens: Seq<char>| a.crops.dom().contains(lens) implies #[trigger] a.crops[lens]
            == b.crops[lens] by {
            assert(lookup(a.crops, lens) == lookup(b.crops, lens));
        }
        assert(a.crops =~= b.crops);
    }
}

/// The rectangle in pixels is that of the pending lens: across by its x and
/// width in the frame's width, down by its y and height in the frame's height.
/// Without one, the frames have the size of the setting.
pub proof fn crops_become_pixels_side_by_side(settings: CameraSettingsView)
    ensures
        lookup(settings.crops, settings.lens) is None ==> pixels(settings) is None && frame_size(
            settings,
        ) == settings.resolution,
        (lookup(settings.crops, settings.lens) matches Some(crop) && size_of(
            settings.resolution,
        ) matches Some((w, h)) && true) ==> (pixels(settings) matches Some((wide, tall, x, y)) && {
            let crop = lookup(settings.crops, settings.lens)->0;
            let (w, h) = size_of(settings.resolution)->0;
            &&& (wide, x) == span(crop.x, crop.width, w)
            &&& (tall, y) == span(crop.y, crop.height, h)
            &&& frame_size(settings) == decimal(wide as nat) + "x"@ + decimal(tall as nat)
        }),
{
}

} // verus!
