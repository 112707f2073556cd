//! Color palettes and the built-in palette registry.
//!
//! The registry maps a name to an ordered color list, once for the
//! calibration palettes used while dithering and once for the
//! device-native color sets used by the replacement pass. Entries are
//! kept in lexicographic name order so the listing functions return
//! sorted names.

use vstd::prelude::*;

use crate::color::convert::{hex6_valid, hex_body, hex_to_rgb, rgb_matches_hex};
use crate::color::Rgb;
use crate::error::DitherError;

verus! {

/// A color palette for dithering
#[derive(Debug, Clone)]
pub struct Palette {
    pub name: String,
    pub colors: Vec<Rgb>,
}

impl Palette {
    /// Create a new palette from a list of colors
    pub fn new(name: &str, colors: Vec<Rgb>) -> (p: Self)
        ensures
            p.name@ == name@,
            p.colors == colors,
    {
        Self { name: name.to_owned(), colors }
    }

    /// Create a palette from hex color strings.
    ///
    /// Succeeds exactly when every string is a valid hex color; the
    /// resulting colors keep the input order.
    pub fn from_hex_strings(name: &str, hex_colors: &[&str]) -> (r: Result<Self, DitherError>)
        ensures
            r is Ok <==> (forall|k: int|
                0 <= k < hex_colors@.len() ==> hex6_valid(hex_body(#[trigger] hex_colors@[k]@))),
            r matches Ok(p) ==> p.name@ == name@ && p.colors@.len() == hex_colors@.len() && (forall|
                k: int,
            |
                0 <= k < hex_colors@.len() ==> rgb_matches_hex(
                    #[trigger] p.colors@[k],
                    hex_colors@[k]@,
                )),
    {
        let mut colors: Vec<Rgb> = Vec::new();
        let mut i: usize = 0;
        while i < hex_colors.len()
            invariant
                0 <= i <= hex_colors@.len(),
                colors@.len() == i,
                forall|k: int|
                    0 <= k < i ==> hex6_valid(hex_body(#[trigger] hex_colors@[k]@)),
                forall|k: int|
                    0 <= k < i ==> rgb_matches_hex(#[trigger] colors@[k], hex_colors@[k]@),
            decreases hex_colors@.len() - i,
        {
            match hex_to_rgb(hex_colors[i]) {
                Ok(channels) => colors.push(Rgb(channels)),
                Err(e) => {
                    return Err(e);
                },
            }
            i = i + 1;
        }
        Ok(Self { name: name.to_owned(), colors })
    }

    /// Get the number of colors in the palette
    pub fn len(&self) -> (n: usize)
        ensures
            n == self.colors@.len(),
    {
        self.colors.len()
    }

    /// Check if the palette is empty
    pub fn is_empty(&self) -> (e: bool)
        ensures
            e == (self.colors@.len() == 0),
    {
        self.colors.is_empty()
    }
}

impl Default for Palette {
    /// The black-and-white palette under the name `default`.
    fn default() -> (p: Self)
        ensures
            p.name@ == "default"@,
            p.colors@ =~= default_palette(),
    {
        let mut colors: Vec<Rgb> = Vec::new();
        colors.push(Rgb([0, 0, 0]));
        colors.push(Rgb([255, 255, 255]));
        Palette { name: String::from_str("default"), colors }
    }
}

/// Colors of the built-in `default` palette: black and white.
pub open spec fn default_palette() -> Seq<Rgb> {
    seq![(Rgb([0u8, 0u8, 0u8])), (Rgb([255u8, 255u8, 255u8]))]
}

/// Colors of the built-in `spectra6` calibration palette:
/// black, white, yellow, red, blue, green.
pub open spec fn spectra6_palette() -> Seq<Rgb> {
    seq![
        (Rgb([0u8, 0u8, 0u8])),
        (Rgb([255u8, 255u8, 255u8])),
        (Rgb([255u8, 255u8, 0u8])),
        (Rgb([255u8, 0u8, 0u8])),
        (Rgb([0u8, 0u8, 255u8])),
        (Rgb([0u8, 255u8, 0u8])),
    ]
}

/// Colors of the built-in `acep7` calibration palette:
/// black, white, green, blue, red, yellow, orange.
pub open spec fn acep7_palette() -> Seq<Rgb> {
    seq![
        (Rgb([0u8, 0u8, 0u8])),
        (Rgb([255u8, 255u8, 255u8])),
        (Rgb([0u8, 255u8, 0u8])),
        (Rgb([0u8, 0u8, 255u8])),
        (Rgb([255u8, 0u8, 0u8])),
        (Rgb([255u8, 255u8, 0u8])),
        (Rgb([255u8, 128u8, 0u8])),
    ]
}

/// Device-native colors for `spectra6`, index-aligned with its
/// calibration palette.
pub open spec fn spectra6_device() -> Seq<Rgb> {
    seq![
        (Rgb([24u8, 24u8, 24u8])),
        (Rgb([230u8, 230u8, 230u8])),
        (Rgb([220u8, 200u8, 60u8])),
        (Rgb([160u8, 50u8, 50u8])),
        (Rgb([60u8, 70u8, 150u8])),
        (Rgb([70u8, 120u8, 70u8])),
    ]
}

/// Device-native colors for `acep7`, index-aligned with its
/// calibration palette.
pub open spec fn acep7_device() -> Seq<Rgb> {
    seq![
        (Rgb([20u8, 20u8, 20u8])),
        (Rgb([235u8, 235u8, 235u8])),
        (Rgb([60u8, 120u8, 70u8])),
        (Rgb([60u8, 70u8, 150u8])),
        (Rgb([160u8, 50u8, 50u8])),
        (Rgb([220u8, 200u8, 60u8])),
        (Rgb([210u8, 140u8, 60u8])),
    ]
}

/// The registry of calibration palettes, in name order.
pub open spec fn palettes_table() -> Seq<(Seq<char>, Seq<Rgb>)> {
    seq![
        ("acep7"@, acep7_palette()),
        ("default"@, default_palette()),
        ("spectra6"@, spectra6_palette()),
    ]
}

/// The registry of device color sets, in name order.
pub open spec fn device_table() -> Seq<(Seq<char>, Seq<Rgb>)> {
    seq![("acep7"@, acep7_device()), ("spectra6"@, spectra6_device())]
}

/// View of a stored registry as name/color-list pairs.
pub open spec fn reg_view(r: Seq<(String, Vec<Rgb>)>) -> Seq<(Seq<char>, Seq<Rgb>)> {
    r.map_values(|e: (String, Vec<Rgb>)| (e.0@, e.1@))
}

/// First entry of the table with the given name, if any.
pub open spec fn table_lookup(t: Seq<(Seq<char>, Seq<Rgb>)>, name: Seq<char>) -> Option<Seq<Rgb>>
    decreases t.len(),
{
    if t.len() == 0 {
        None
    } else if t[0].0 == name {
        Some(t[0].1)
    } else {
        table_lookup(t.drop_first(), name)
    }
}

proof fn lemma_table_lookup_skip(t: Seq<(Seq<char>, Seq<Rgb>)>, name: Seq<char>, i: int)
    requires
        0 <= i <= t.len(),
        forall|k: int| 0 <= k < i ==> (#[trigger] t[k]).0 != name,
    ensures
        table_lookup(t, name) == table_lookup(t.skip(i), name),
    decreases i,
{
    if i > 0 {
        lemma_table_lookup_skip(t, name, i - 1);
        let u = t.skip(i - 1);
        assert(u[0] == t[i - 1]);
        assert(u.drop_first() =~= t.skip(i));
    } else {
        assert(t.skip(0) =~= t);
    }
}

/// Registry of the built-in palettes and device color sets.
pub struct PaletteManager {
    palettes: Vec<(String, Vec<Rgb>)>,
    device_colors: Vec<(String, Vec<Rgb>)>,
}

impl PaletteManager {
    /// The registered calibration palettes, as name/color-list pairs.
    pub closed spec fn palettes_view(&self) -> Seq<(Seq<char>, Seq<Rgb>)> {
        reg_view(self.palettes@)
    }

    /// The registered device color sets, as name/color-list pairs.
    pub closed spec fn devices_view(&self) -> Seq<(Seq<char>, Seq<Rgb>)> {
        reg_view(self.device_colors@)
    }
}

fn copy_colors(src: &Vec<Rgb>) -> (v: Vec<Rgb>)
    ensures
        v@ =~= src@,
{
    let mut v: Vec<Rgb> = Vec::new();
    let mut i: usize = 0;
    while i < src.len()
        invariant
            0 <= i <= src@.len(),
            v@ =~= src@.take(i as int),
        decreases src@.len() - i,
    {
        v.push(src[i]);
        i = i + 1;
    }
    v
}

/// Look up a name in a stored registry; returns a copy of its colors.
fn reg_get(reg: &Vec<(String, Vec<Rgb>)>, name: &str) -> (r: Option<Vec<Rgb>>)
    ensures
        r is Some <==> table_lookup(reg_view(reg@), name@) is Some,
        r matches Some(v) ==> table_lookup(reg_view(reg@), name@) == Some(v@),
{
    let key: String = name.to_owned();
    let t = Ghost(reg_view(reg@));
    let mut i: usize = 0;
    while i < reg.len()
        invariant
            0 <= i <= reg@.len(),
            t@ == reg_view(reg@),
            t@.len() == reg@.len(),
            key@ == name@,
            forall|k: int| 0 <= k < reg@.len() ==> #[trigger] t@[k] == (reg@[k].0@, reg@[k].1@),
            forall|k: int| 0 <= k < i ==> (#[trigger] t@[k]).0 != name@,
        decreases reg@.len() - i,
    {
        if reg[i].0 == key {
            let v = copy_colors(&reg[i].1);
            proof {
                lemma_table_lookup_skip(t@, name@, i as int);
                assert(t@.skip(i as int)[0] == t@[i as int]);
            }
            return Some(v);
        }
        i = i + 1;
    }
    proof {
        lemma_table_lookup_skip(t@, name@, reg@.len() as int);
        assert(t@.skip(t@.len() as int).len() == 0);
    }
    None
}

impl PaletteManager {
    /// Build the registry of built-in palettes and device color sets.
    pub fn new() -> (r: Result<Self, DitherError>)
        ensures
            r is Ok,
            r matches Ok(m) ==> m.palettes_view() =~~= palettes_table() && m.devices_view()
                =~~= device_table(),
    {
        let mut acep7: Vec<Rgb> = Vec::new();
        acep7.push(Rgb([0, 0, 0]));
        acep7.push(Rgb([255, 255, 255]));
        acep7.push(Rgb([0, 255, 0]));
        acep7.push(Rgb([0, 0, 255]));
        acep7.push(Rgb([255, 0, 0]));
        acep7.push(Rgb([255, 255, 0]));
        acep7.push(Rgb([255, 128, 0]));

        let mut default: Vec<Rgb> = Vec::new();
        default.push(Rgb([0, 0, 0]));
        default.push(Rgb([255, 255, 255]));

        let mut spectra6: Vec<Rgb> = Vec::new();
        spectra6.push(Rgb([0, 0, 0]));
        spectra6.push(Rgb([255, 255, 255]));
        spectra6.push(Rgb([255, 255, 0]));
        spectra6.push(Rgb([255, 0, 0]));
        spectra6.push(Rgb([0, 0, 255]));
        spectra6.push(Rgb([0, 255, 0]));

        let mut acep7_dev: Vec<Rgb> = Vec::new();
        acep7_dev.push(Rgb([20, 20, 20]));
        acep7_dev.push(Rgb([235, 235, 235]));
        acep7_dev.push(Rgb([60, 120, 70]));
        acep7_dev.push(Rgb([60, 70, 150]));
        acep7_dev.push(Rgb([160, 50, 50]));
        acep7_dev.push(Rgb([220, 200, 60]));
        acep7_dev.push(Rgb([210, 140, 60]));

        let mut spectra6_dev: Vec<Rgb> = Vec::new();
        spectra6_dev.push(Rgb([24, 24, 24]));
        spectra6_dev.push(Rgb([230, 230, 230]));
        spectra6_dev.push(Rgb([220, 200, 60]));
        spectra6_dev.push(Rgb([160, 50, 50]));
        spectra6_dev.push(Rgb([60, 70, 150]));
        spectra6_dev.push(Rgb([70, 120, 70]));

        let mut palettes: Vec<(String, Vec<Rgb>)> = Vec::new();
        palettes.push((String::from_str("acep7"), acep7));
        palettes.push((String::from_str("default"), default));
        palettes.push((String::from_str("spectra6"), spectra6));

        let mut device_colors: Vec<(String, Vec<Rgb>)> = Vec::new();
        device_colors.push((String::from_str("acep7"), acep7_dev));
        device_colors.push((String::from_str("spectra6"), spectra6_dev));

        Ok(Self { palettes, device_colors })
    }

    /// Get a palette by name.
    ///
    /// Succeeds exactly when the name is registered; the palette then
    /// carries that name and the registered colors.
    pub fn get_palette(&self, name: &str) -> (r: Result<Palette, DitherError>)
        ensures
            r is Ok <==> table_lookup(self.palettes_view(), name@) is Some,
            r is Err ==> r == Err::<Palette, DitherError>(DitherError::PaletteNotFound),
            r matches Ok(p) ==> p.name@ == name@ && table_lookup(self.palettes_view(), name@)
                == Some(p.colors@),
    {
        match reg_get(&self.palettes, name) {
            Some(colors) => Ok(Palette { name: name.to_owned(), colors }),
            None => Err(DitherError::PaletteNotFound),
        }
    }

    /// Get a device color set by name.
    ///
    /// Succeeds exactly when the name is registered.
    pub fn get_device_colors(&self, name: &str) -> (r: Result<Vec<Rgb>, DitherError>)
        ensures
            r is Ok <==> table_lookup(self.devices_view(), name@) is Some,
            r is Err ==> r == Err::<Vec<Rgb>, DitherError>(DitherError::DeviceColorsNotFound),
            r matches Ok(v) ==> table_lookup(self.devices_view(), name@) == Some(v@),
    {
        match reg_get(&self.device_colors, name) {
            Some(colors) => Ok(colors),
            None => Err(DitherError::DeviceColorsNotFound),
        }
    }

    /// List the palette names, in registry (name) order.
    pub fn list_palettes(&self) -> (names: Vec<String>)
        ensures
            names@.len() == self.palettes_view().len(),
            forall|k: int|
                0 <= k < names@.len() ==> (#[trigger] names@[k])@ == self.palettes_view()[k].0,
    {
        list_names(&self.palettes)
    }

    /// List the device color set names, in registry (name) order.
    pub fn list_device_colors(&self) -> (names: Vec<String>)
        ensures
            names@.len() == self.devices_view().len(),
            forall|k: int|
                0 <= k < names@.len() ==> (#[trigger] names@[k])@ == self.devices_view()[k].0,
    {
        list_names(&self.device_colors)
    }
}

fn list_names(reg: &Vec<(String, Vec<Rgb>)>) -> (names: Vec<String>)
    ensures
        names@.len() == reg@.len(),
        forall|k: int| 0 <= k < names@.len() ==> (#[trigger] names@[k])@ == reg_view(reg@)[k].0,
{
    let mut names: Vec<String> = Vec::new();
    let mut i: usize = 0;
    while i < reg.len()
        invariant
            0 <= i <= reg@.len(),
            names@.len() == i,
            forall|k: int| 0 <= k < i ==> (#[trigger] names@[k])@ == reg@[k].0@,
        decreases reg@.len() - i,
    {
        names.push(reg[i].0.clone());
        i = i + 1;
    }
    names
}

} // verus!
