//! Terrain sections read from a colour mask, and biome names.
//!
//! A mask pixel's channels are 8-bit values; a channel counts as high above
//! 0.7 of full scale (179 and up), low below 0.3 (76 and down), and a pixel
//! is dark when every channel lies below 0.1 (25 and down).
use vstd::prelude::*;

verus! {

pub open spec fn high(c: u8) -> bool {
    c >= 179
}

pub open spec fn low(c: u8) -> bool {
    c <= 76
}

pub open spec fn dark(r: u8, g: u8, b: u8) -> bool {
    r <= 25 && g <= 25 && b <= 25
}

/// The section of a pixel whose colour is none of the pure ones: 0 when
/// dark, else that of its strongest channel, red before green before blue.
pub open spec fn dominant_section(r: u8, g: u8, b: u8) -> u8 {
    if dark(r, g, b) {
        0
    } else if r >= g && r >= b {
        1
    } else if g >= r && g >= b {
        2
    } else {
        3
    }
}

/// The section of a mask pixel among three: red 1, green 2, blue 3.
pub open spec fn section_of_rgb(r: u8, g: u8, b: u8) -> u8 {
    if high(r) && low(g) && low(b) {
        1
    } else if low(r) && high(g) && low(b) {
        2
    } else if low(r) && low(g) && high(b) {
        3
    } else {
        dominant_section(r, g, b)
    }
}

/// The section of a mask pixel among six: red 1, green 2, blue 3, yellow 4,
/// purple 5, cyan 6.
pub open spec fn section_of_rgb6(r: u8, g: u8, b: u8) -> u8 {
    if high(r) && low(g) && low(b) {
        1
    } else if low(r) && high(g) && low(b) {
        2
    } else if low(r) && low(g) && high(b) {
        3
    } else if high(r) && high(g) && low(b) {
        4
    } else if high(r) && low(g) && high(b) {
        5
    } else if low(r) && high(g) && high(b) {
        6
    } else {
        dominant_section(r, g, b)
    }
}

/// A pixel belongs to no section exactly when it is dark; otherwise to one
/// of the three.
pub proof fn lemma_dark_is_undefined(r: u8, g: u8, b: u8)
    ensures
        section_of_rgb(r, g, b) == 0 <==> dark(r, g, b),
        1 <= section_of_rgb(r, g, b) <= 3 <==> !dark(r, g, b),
{
}

/// The six-section reading agrees with the three-section one on every
/// pixel that is not pure yellow, purple or cyan.
pub proof fn lemma_six_extends_three(r: u8, g: u8, b: u8)
    requires
        !(high(r) && high(g) && low(b)),
        !(high(r) && low(g) && high(b)),
        !(low(r) && high(g) && high(b)),
    ensures
        section_of_rgb6(r, g, b) == section_of_rgb(r, g, b),
{
}

fn dominant_section_exec(r: u8, g: u8, b: u8) -> (s: u8)
    ensures
        s == dominant_section(r, g, b),
{
    if r <= 25 && g <= 25 && b <= 25 {
        0
    } else if r >= g && r >= b {
        1
    } else if g >= r && g >= b {
        2
    } else {
        3
    }
}

/// The section, among three, of a pixel with channels `r`, `g`, `b`.
pub fn section_from_rgb(r: u8, g: u8, b: u8) -> (s: u8)
    ensures
        s == section_of_rgb(r, g, b),
        s <= 3,
{
    if r >= 179 && g <= 76 && b <= 76 {
        1
    } else if r <= 76 && g >= 179 && b <= 76 {
        2
    } else if r <= 76 && g <= 76 && b >= 179 {
        3
    } else {
        dominant_section_exec(r, g, b)
    }
}

/// The section, among six, of a pixel with channels `r`, `g`, `b`.
pub fn section_from_rgb6(r: u8, g: u8, b: u8) -> (s: u8)
    ensures
        s == section_of_rgb6(r, g, b),
        s <= 6,
{
    if r >= 179 && g <= 76 && b <= 76 {
        1
    } else if r <= 76 && g >= 179 && b <= 76 {
        2
    } else if r <= 76 && g <= 76 && b >= 179 {
        3
    } else if r >= 179 && g >= 179 && b <= 76 {
        4
    } else if r >= 179 && g <= 76 && b >= 179 {
        5
    } else if r <= 76 && g >= 179 && b >= 179 {
        6
    } else {
        dominant_section_exec(r, g, b)
    }
}

pub open spec fn clamp_int(v: int, lo: int, hi: int) -> int {
    if v < lo {
        lo
    } else if v > hi {
        hi
    } else {
        v
    }
}

/// Where the red channel of the mask pixel at (`mask_x`, `mask_y`), clamped
/// into a `width` by `height` image of 4-byte pixels, lies in the data.
pub open spec fn pixel_offset(width: i32, height: i32, mask_x: i32, mask_y: i32) -> int {
    let x = clamp_int(mask_x as int, 0, width - 1);
    let y = clamp_int(mask_y as int, 0, height - 1);
    (y * width + x) * 4
}

/// The section, among three, that an RGBA mask gives the pixel at
/// (`mask_x`, `mask_y`), clamped into the image; nothing when the image is
/// empty or the pixel lies beyond its data.
pub open spec fn image_section(data: Seq<u8>, width: i32, height: i32, mask_x: i32, mask_y: i32) -> Option<u8> {
    let i = pixel_offset(width, height, mask_x, mask_y);
    if data.len() > 0 && width > 0 && height > 0 && i + 2 < data.len() {
        Some(section_of_rgb(data[i], data[i + 1], data[i + 2]))
    } else {
        None
    }
}

/// The section the mask gives the pixel at (`mask_x`, `mask_y`); nothing
/// where the caller falls back to the position's share of the world width.
pub fn section_from_image(image_data: &Vec<u8>, image_width: i32, image_height: i32, mask_x: i32, mask_y: i32) -> (s: Option<u8>)
    requires
        image_width > 0 && image_height > 0 ==> (image_height as int) * (image_width as int) * 4 <= usize::MAX,
    ensures
        s == image_section(image_data@, image_width, image_height, mask_x, mask_y),
{
    if image_data.len() == 0 || image_width <= 0 || image_height <= 0 {
        return None;
    }
    let x: usize = if mask_x < 0 { 0 } else if mask_x > image_width - 1 { (image_width - 1) as usize } else { mask_x as usize };
    let y: usize = if mask_y < 0 { 0 } else if mask_y > image_height - 1 { (image_height - 1) as usize } else { mask_y as usize };
    assert((y * image_width as usize + x) * 4 <= (image_height as int) * (image_width as int) * 4) by (nonlinear_arith)
        requires
            y <= image_height - 1,
            x <= image_width - 1,
            image_width > 0,
    ;
    let idx = (y * image_width as usize + x) * 4;
    if idx < image_data.len() && image_data.len() - idx > 2 {
        Some(section_from_rgb(image_data[idx], image_data[idx + 1], image_data[idx + 2]))
    } else {
        None
    }
}

/// The decimal digits of `n`.
pub open spec fn decimal(n: nat) -> Seq<char>
    decreases n,
{
    if n < 10 {
        seq![digit_char(n)]
    } else {
        decimal(n / 10) + seq![digit_char(n % 10)]
    }
}

pub open spec fn digit_char(d: nat) -> char {
    if d == 0 {
        '0'
    } else if d == 1 {
        '1'
    } else if d == 2 {
        '2'
    } else if d == 3 {
        '3'
    } else if d == 4 {
        '4'
    } else if d == 5 {
        '5'
    } else if d == 6 {
        '6'
    } else if d == 7 {
        '7'
    } else if d == 8 {
        '8'
    } else {
        '9'
    }
}

fn digit_str(d: u8) -> (s: &'static str)
    requires
        d < 10,
    ensures
        s@ == seq![digit_char(d as nat)],
{
    proof {
        reveal_strlit("0");
        reveal_strlit("1");
        reveal_strlit("2");
        reveal_strlit("3");
        reveal_strlit("4");
        reveal_strlit("5");
        reveal_strlit("6");
        reveal_strlit("7");
        reveal_strlit("8");
        reveal_strlit("9");
    }
    if d == 0 {
        "0"
    } else if d == 1 {
        "1"
    } else if d == 2 {
        "2"
    } else if d == 3 {
        "3"
    } else if d == 4 {
        "4"
    } else if d == 5 {
        "5"
    } else if d == 6 {
        "6"
    } else if d == 7 {
        "7"
    } else if d == 8 {
        "8"
    } else {
        "9"
    }
}

/// `n` in decimal.
pub fn decimal_string(n: u8) -> (s: String)
    ensures
        s@ == decimal(n as nat),
{
    if n < 10 {
        String::from_str(digit_str(n))
    } else if n < 100 {
        proof {
            assert(decimal((n / 10) as nat) == seq![digit_char((n / 10) as nat)]);
        }
        let s = String::from_str(digit_str(n / 10));
        s.concat(digit_str(n % 10))
    } else {
        proof {
            assert(decimal((n / 100) as nat) == seq![digit_char((n / 100) as nat)]);
            assert((n / 10) / 10 == n / 100);
            assert(decimal((n / 10) as nat) == decimal((n / 100) as nat) + seq![digit_char(((n / 10) % 10) as nat)]);
        }
        let s = String::from_str(digit_str(n / 100));
        let s = s.concat(digit_str((n / 10) % 10));
        s.concat(digit_str(n % 10))
    }
}

/// The display name of biome `id`.
pub open spec fn biome_name_of(id: u8) -> Seq<char> {
    if id == 0 {
        "Unknown"@
    } else if id == 1 {
        "Coral"@
    } else if id == 2 {
        "Sand"@
    } else if id == 3 {
        "Rock"@
    } else if id == 4 {
        "Kelp"@
    } else if id == 5 {
        "Lavarock"@
    } else {
        "Biome "@ + decimal(id as nat)
    }
}

/// The known biomes are named by id: 0 is unknown, then coral, sand, rock,
/// kelp and lava rock for 1 to 5; any other id is "Biome " and its number.
pub proof fn lemma_biome_names(id: u8)
    ensures
        biome_name_of(0) == "Unknown"@,
        biome_name_of(1) == "Coral"@,
        biome_name_of(2) == "Sand"@,
        biome_name_of(3) == "Rock"@,
        biome_name_of(4) == "Kelp"@,
        biome_name_of(5) == "Lavarock"@,
        id > 5 ==> biome_name_of(id) == "Biome "@ + decimal(id as nat),
{
}

/// The display name of biome `biome_id`: the five known biomes by name,
/// 0 as unknown, any other as "Biome" and its number.
pub fn get_biome_name(biome_id: u8) -> (name: String)
    ensures
        name@ == biome_name_of(biome_id),
        biome_id == 0 ==> name@ == "Unknown"@,
        biome_id == 1 ==> name@ == "Coral"@,
        biome_id == 2 ==> name@ == "Sand"@,
        biome_id == 3 ==> name@ == "Rock"@,
        biome_id == 4 ==> name@ == "Kelp"@,
        biome_id == 5 ==> name@ == "Lavarock"@,
        biome_id > 5 ==> name@ == "Biome "@ + decimal(biome_id as nat),
{
    if biome_id == 0 {
        String::from_str("Unknown")
    } else if biome_id == 1 {
        String::from_str("Coral")
    } else if biome_id == 2 {
        String::from_str("Sand")
    } else if biome_id == 3 {
        String::from_str("Rock")
    } else if biome_id == 4 {
        String::from_str("Kelp")
    } else if biome_id == 5 {
        String::from_str("Lavarock")
    } else {
        let prefix = String::from_str("Biome ");
        let digits = decimal_string(biome_id);
        prefix.concat(digits.as_str())
    }
}

} // verus!
