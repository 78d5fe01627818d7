use crate::read_into::{parse_i32, parse_i32_range, utf8_text};
use crate::sensor_type::SensorType;
use vstd::prelude::*;
use vstd::string::*;
use vstd::utf8::*;

verus! {

/// A sensor file: a prefix, an index, `_`, then what the file holds.
pub const SENSOR_PATTERN: &'static str = "(.+)(\\d+)_(.+)";

/// A hardware-monitor device directory.
pub const MODULE_PATTERN: &'static str = "hwmon(\\d+)$";

/// A CPU frequency policy directory.
pub const POLICY_PATTERN: &'static str = "policy(\\d+)$";

/// The capture groups of the first match of `pattern` in `text`, group 0
/// being the whole match and a group that took no part in it being absent;
/// nothing where the pattern does not compile or does not match.
pub uninterp spec fn regex_captures(pattern: Seq<char>, text: Seq<u8>) -> Option<Seq<Option<Seq<u8>>>>;

pub open spec fn groups_view(g: Seq<Option<Vec<u8>>>) -> Seq<Option<Seq<u8>>> {
    g.map_values(
        |x: Option<Vec<u8>>|
            match x {
                Some(v) => Some(v@),
                None => None,
            },
    )
}

/// Relies on regex::bytes::Regex::new, to compile the pattern, and on
/// Regex::captures with Captures::iter, for the groups of the first match
/// of it in the bytes, each with the bytes it matched.
#[verifier::external_body]
fn captures(pattern: &str, text: &[u8]) -> (r: Option<Vec<Option<Vec<u8>>>>)
    ensures
        r matches Some(g) ==> regex_captures(pattern@, text@) == Some(groups_view(g@)),
        r is None ==> regex_captures(pattern@, text@) is None,
{
    let re = regex::bytes::Regex::new(pattern).ok()?;
    let caps = re.captures(text)?;
    Some(caps.iter().map(|m| m.map(|m| m.as_bytes().to_vec())).collect())
}

/// Relies on String::push: appends one character.
#[verifier::external_body]
fn push_char(s: &mut String, c: char)
    ensures
        final(s)@ == old(s)@.push(c),
{
    s.push(c)
}

/// The text of a capture group, where it took part and is UTF-8.
pub open spec fn group_text(g: Seq<Option<Seq<u8>>>, i: int) -> Option<Seq<char>> {
    if 0 <= i < g.len() && g[i] is Some && valid_utf8(g[i]->0) {
        Some(decode_utf8(g[i]->0))
    } else {
        None
    }
}

fn group_string(g: &Vec<Option<Vec<u8>>>, i: usize) -> (r: Option<String>)
    ensures
        r matches Some(s) ==> group_text(groups_view(g@), i as int) == Some(s@),
        r is None ==> group_text(groups_view(g@), i as int) is None,
{
    if i < g.len() {
        match &g[i] {
            Some(b) => utf8_text(b.as_slice()),
            None => None,
        }
    } else {
        None
    }
}

/// The decimal digits of `n`, most significant first.
pub open spec fn decimal(n: nat) -> Seq<char>
    decreases n,
{
    if n < 10 {
        seq![((n + 48) as u8) as char]
    } else {
        decimal(n / 10).push((((n % 10) + 48) as u8) as char)
    }
}

/// Appends the decimal digits of `n` to `s`.
pub fn push_decimal(s: &mut String, n: u16)
    ensures
        final(s)@ == old(s)@ + decimal(n as nat),
    decreases n,
{
    if n >= 10 {
        push_decimal(s, n / 10);
    }
    let d = (n % 10) as u8;
    push_char(s, (d + 48) as char);
    proof {
        if n >= 10 {
            assert(old(s)@ + decimal(n as nat) =~= old(s)@ + decimal((n / 10) as nat) + seq![
                ((d + 48) as u8) as char,
            ]);
        } else {
            assert(old(s)@ + decimal(n as nat) =~= old(s)@.push(((d + 48) as u8) as char));
        }
    }
}

/// The index written by a capture group, where it is a 16-bit one.
pub open spec fn group_index(g: Seq<Option<Seq<u8>>>, i: int) -> Option<int> {
    match group_text(g, i) {
        Some(t) => match parse_i32(t) {
            Some(v) => if 0 <= v <= 65535 {
                Some(v)
            } else {
                None
            },
            None => None,
        },
        None => None,
    }
}

fn index_of_group(g: &Vec<Option<Vec<u8>>>, i: usize) -> (r: Option<u16>)
    ensures
        r matches Some(v) ==> group_index(groups_view(g@), i as int) == Some(v as int),
        r is None ==> group_index(groups_view(g@), i as int) is None,
{
    let t = group_string(g, i)?;
    let n = t.as_str().unicode_len();
    proof {
        assert(t@.subrange(0, n as int) =~= t@);
    }
    match parse_i32_range(t.as_str(), 0, n) {
        Some(v) => if 0 <= v && v <= 65535 {
            Some(v as u16)
        } else {
            None
        },
        None => None,
    }
}

/// What the name of a sensor's input file says: the prefix that names its
/// kind, and its index.
pub open spec fn sensor_file_spec(file: Seq<u8>) -> Option<(Seq<char>, int)> {
    match regex_captures(SENSOR_PATTERN@, file) {
        Some(g) => if g.len() == 4 && group_text(g, 3) == Some("input"@) && group_text(g, 1) is Some
            && group_index(g, 2) is Some {
            Some((group_text(g, 1)->0, group_index(g, 2)->0))
        } else {
            None
        },
        None => None,
    }
}

/// A sensor's input file, as its name describes it.
pub struct SensorFile {
    /// The prefix that names the kind (`temp`, `fan`, ...).
    pub prefix: String,
    pub typ: SensorType,
    pub index: u16,
    /// The prefix and the index: the sensor's name where it has no label.
    pub name: String,
    /// The name of the file that may hold the sensor's label.
    pub label_file: String,
}

/// Reads a file name of a hardware-monitor directory: a sensor's input file
/// gives its prefix, kind and index; any other name gives nothing.
pub fn sensor_file(file: &[u8]) -> (r: Option<SensorFile>)
    ensures
        r is Some <==> sensor_file_spec(file@) is Some,
        r matches Some(f) ==> {
            &&& (f.prefix@, f.index as int) == sensor_file_spec(file@)->0
            &&& f.name@ == f.prefix@ + decimal(f.index as nat)
            &&& f.label_file@ == f.prefix@ + decimal(f.index as nat) + "_label"@
            &&& SensorType::of_prefix(f.prefix@) matches Some(k) ==> f.typ == k
            &&& SensorType::of_prefix(f.prefix@) is None ==> (f.typ matches SensorType::Other(o)
                && o@ == f.prefix@)
        },
{
    let g = captures(SENSOR_PATTERN, file)?;
    if g.len() != 4 {
        return None;
    }
    let kind = group_string(&g, 3)?;
    if kind.as_str().to_owned() != "input".to_owned() {
        return None;
    }
    let prefix = group_string(&g, 1)?;
    let index = index_of_group(&g, 2)?;
    let mut name = prefix.clone();
    push_decimal(&mut name, index);
    let label_file = name.clone().concat("_label");
    let typ = SensorType::from_str(prefix.as_str());
    Some(SensorFile { prefix, typ, index, name, label_file })
}

/// The index of a hardware-monitor device directory, from its name.
pub open spec fn module_index_spec(dir: Seq<u8>) -> Option<int> {
    match regex_captures(MODULE_PATTERN@, dir) {
        Some(g) => match group_text(g, 1) {
            Some(t) => parse_i32(t),
            None => None,
        },
        None => None,
    }
}

/// Reads the name of a directory of the hardware-monitor class: a device
/// directory gives its index; any other name gives nothing.
pub fn module_index(dir: &[u8]) -> (r: Option<i32>)
    ensures
        r matches Some(v) ==> module_index_spec(dir@) == Some(v as int),
        r is None ==> module_index_spec(dir@) is None,
{
    let g = captures(MODULE_PATTERN, dir)?;
    let t = group_string(&g, 1)?;
    let n = t.as_str().unicode_len();
    proof {
        assert(t@.subrange(0, n as int) =~= t@);
    }
    parse_i32_range(t.as_str(), 0, n)
}

/// Whether a directory name is that of a CPU frequency policy.
pub fn is_policy(dir: &[u8]) -> (r: bool)
    ensures
        r == regex_captures(POLICY_PATTERN@, dir@) is Some,
{
    captures(POLICY_PATTERN, dir).is_some()
}

/// The label of CPU core `idx`.
pub fn core_label(idx: u16) -> (r: String)
    ensures
        r@ == "CPU "@ + decimal(idx as nat),
{
    let mut s = "CPU ".to_owned();
    push_decimal(&mut s, idx);
    s
}

/// The text of a one-line kernel file: without the newline that ends it.
pub fn line_text(s: String) -> (r: String)
    ensures
        s@.len() > 0 && s@.last() == '\n' ==> r@ == s@.drop_last(),
        !(s@.len() > 0 && s@.last() == '\n') ==> r@ == s@,
{
    let n = s.as_str().unicode_len();
    if n > 0 && s.as_str().get_char(n - 1) == '\n' {
        s.as_str().substring_char(0, n - 1).to_owned()
    } else {
        s
    }
}

} // verus!
