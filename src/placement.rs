//! Where registered resources are stored: paths built from a root directory,
//! a kind-specific subdirectory, a size bucket for icons, and the file name.
use vstd::prelude::*;

verus! {

/// `leaf` under `dir`, with one separator between them.
pub open spec fn join_path(dir: Seq<char>, leaf: Seq<char>) -> Seq<char> {
    if dir.len() == 0 || dir.last() == '/' {
        dir + leaf
    } else {
        dir + "/"@ + leaf
    }
}

pub open spec fn digit(d: nat) -> Seq<char> {
    if d == 0 {
        "0"@
    } else if d == 1 {
        "1"@
    } else if d == 2 {
        "2"@
    } else if d == 3 {
        "3"@
    } else if d == 4 {
        "4"@
    } else if d == 5 {
        "5"@
    } else if d == 6 {
        "6"@
    } else if d == 7 {
        "7"@
    } else if d == 8 {
        "8"@
    } else {
        "9"@
    }
}

/// `n` written in decimal.
pub open spec fn decimal(n: nat) -> Seq<char>
    decreases n,
{
    if n < 10 {
        digit(n)
    } else {
        decimal(n / 10) + digit(n % 10)
    }
}

/// Where a raster icon of the given side is stored, under the icon directory.
pub open spec fn raster_leaf(side: nat, name: Seq<char>) -> Seq<char> {
    "hicolor/"@ + decimal(side) + "x"@ + decimal(side) + "/apps/"@ + name + ".png"@
}

/// Where a scalable icon is stored, under the icon directory.
pub open spec fn scalable_leaf(name: Seq<char>) -> Seq<char> {
    "hicolor/scalable/apps/"@ + name + ".svg"@
}

/// The file name of a desktop entry.
pub open spec fn entry_leaf(appid: Seq<char>) -> Seq<char> {
    appid + ".desktop"@
}

pub fn join(dir: &str, leaf: &str) -> (r: String)
    ensures
        r@ == join_path(dir@, leaf@),
{
    let n = dir.unicode_len();
    let mut r = String::from_str(dir);
    if n > 0 && dir.get_char(n - 1) != '/' {
        r.append("/");
    }
    r.append(leaf);
    r
}

fn digit_str(d: u32) -> (r: &'static str)
    requires
        d < 10,
    ensures
        r@ == digit(d as nat),
{
    if d == 0 {
        "0"
    } else if d == 1 {
        "1"
    } else if d == 2 {
        "2"
    } else if d == 3 {
        "3"
    } else if d == 4 {
        "4"
    } else if d == 5 {
        "5"
    } else if d == 6 {
        "6"
    } else if d == 7 {
        "7"
    } else if d == 8 {
        "8"
    } else {
        "9"
    }
}

/// Appends `n` in decimal to `out`.
pub fn push_decimal(out: &mut String, n: u32)
    ensures
        final(out)@ == old(out)@ + decimal(n as nat),
    decreases n,
{
    if n >= 10 {
        push_decimal(out, n / 10);
    }
    out.append(digit_str(n % 10));
    proof {
        if n >= 10 {
            assert(old(out)@ + decimal(n as nat / 10) + digit(n as nat % 10) =~= old(out)@ + (
            decimal(n as nat / 10) + digit(n as nat % 10)));
        }
    }
}

/// The name, under the icon directory, of a raster icon of the given side.
pub fn raster_icon_leaf(side: u32, name: &str) -> (r: String)
    ensures
        r@ == raster_leaf(side as nat, name@),
{
    let mut r = String::from_str("hicolor/");
    push_decimal(&mut r, side);
    r.append("x");
    push_decimal(&mut r, side);
    r.append("/apps/");
    r.append(name);
    r.append(".png");
    r
}

/// The name, under the icon directory, of a scalable icon.
pub fn scalable_icon_leaf(name: &str) -> (r: String)
    ensures
        r@ == scalable_leaf(name@),
{
    let mut r = String::from_str("hicolor/scalable/apps/");
    r.append(name);
    r.append(".svg");
    r
}

/// The file name of the desktop entry `appid`.
pub fn entry_file_name(appid: &str) -> (r: String)
    ensures
        r@ == entry_leaf(appid@),
{
    let mut r = String::from_str(appid);
    r.append(".desktop");
    r
}

} // verus!
