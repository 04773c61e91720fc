//! Names read from, and made for, sysfs entries: throttle reasons and
//! sensor label files.
use vstd::prelude::*;
use vstd::string::StringSliceAdditionalSpecFns;
use vstd::utf8::encode_utf8;
use crate::freq::DriverType;
use crate::hwmon::bytes_of;

verus! {

pub open spec fn is_prefix(p: Seq<u8>, s: Seq<u8>) -> bool {
    p.len() <= s.len() && s.take(p.len() as int) == p
}

pub open spec fn is_suffix(p: Seq<u8>, s: Seq<u8>) -> bool {
    p.len() <= s.len() && s.skip(s.len() - p.len()) == p
}

/// Relies on `str::strip_prefix`: the rest of `s` after `prefix`, when `s`
/// starts with it.
#[verifier::external_body]
fn strip_prefix<'a>(s: &'a str, prefix: &str) -> (r: Option<&'a str>)
    ensures
        match r {
            None => !is_prefix(prefix.spec_bytes(), s.spec_bytes()),
            Some(t) => s.spec_bytes() == prefix.spec_bytes() + t.spec_bytes(),
        },
{
    s.strip_prefix(prefix)
}

/// Relies on `str::strip_suffix`: the part of `s` before `suffix`, when `s`
/// ends with it.
#[verifier::external_body]
fn strip_suffix<'a>(s: &'a str, suffix: &str) -> (r: Option<&'a str>)
    ensures
        match r {
            None => !is_suffix(suffix.spec_bytes(), s.spec_bytes()),
            Some(t) => s.spec_bytes() == t.spec_bytes() + suffix.spec_bytes(),
        },
{
    s.strip_suffix(suffix)
}

/// Relies on `String::push_str`: appends `t` to `s`.
#[verifier::external_body]
fn push_str(s: &mut String, t: &str)
    ensures
        encode_utf8(final(s)@) == encode_utf8(old(s)@) + t.spec_bytes(),
{
    s.push_str(t)
}

fn same_bytes(a: &[u8], b: &[u8]) -> (r: bool)
    ensures
        r == (a@ == b@),
{
    if a.len() != b.len() {
        return false;
    }
    let mut i: usize = 0;
    while i < a.len()
        invariant
            i <= a@.len(),
            a@.len() == b@.len(),
            forall|k: int| 0 <= k < i ==> a@[k] == #[trigger] b@[k],
        decreases a.len() - i,
    {
        if a[i] != b[i] {
            return false;
        }
        i += 1;
    }
    assert(a@ =~= b@);
    true
}

pub open spec fn reason_prefix(driver: DriverType) -> Seq<u8> {
    match driver {
        DriverType::I915 => "throttle_reason_".spec_bytes(),
        DriverType::Xe => "reason_".spec_bytes(),
    }
}

/// The throttle reason that an entry of the throttle directory reports: the
/// file name after the driver's prefix, when its value is not zero. i915's
/// summary file `throttle_reason_status` is no reason.
pub open spec fn reason_of(driver: DriverType, name: Seq<u8>, value: Option<i32>) -> Option<Seq<u8>> {
    let p = reason_prefix(driver);
    if is_prefix(p, name) {
        let reason = name.skip(p.len() as int);
        if driver == DriverType::I915 && reason == "status".spec_bytes() {
            None
        } else {
            match value {
                Some(v) => if v != 0 {
                    Some(reason)
                } else {
                    None
                },
                None => None,
            }
        }
    } else {
        None
    }
}

pub open spec fn reasons_of(driver: DriverType, entries: Seq<(String, Option<i32>)>) -> Seq<Seq<u8>>
    decreases entries.len(),
{
    if entries.len() == 0 {
        seq![]
    } else {
        let rest = reasons_of(driver, entries.drop_last());
        match reason_of(driver, encode_utf8(entries.last().0@), entries.last().1) {
            Some(r) => rest.push(r),
            None => rest,
        }
    }
}

/// The active throttle reasons among the entries of the throttle directory,
/// each given as its file name and the value it reads as, in entry order.
pub fn throttle_reasons(driver: DriverType, entries: &Vec<(String, Option<i32>)>) -> (r: Vec<String>)
    ensures
        bytes_of(r@) == reasons_of(driver, entries@),
{
    let prefix = match driver {
        DriverType::I915 => "throttle_reason_",
        DriverType::Xe => "reason_",
    };
    let mut out: Vec<String> = Vec::new();
    let mut i: usize = 0;
    while i < entries.len()
        invariant
            i <= entries@.len(),
            prefix.spec_bytes() == reason_prefix(driver),
            bytes_of(out@) == reasons_of(driver, entries@.take(i as int)),
        decreases entries.len() - i,
    {
        assert(entries@.take(i + 1).drop_last() =~= entries@.take(i as int));
        let ghost old_out = out@;
        let name = entries[i].0.as_str();
        let value = entries[i].1;
        match strip_prefix(name, prefix) {
            None => {},
            Some(reason) => {
                let ghost nb = name.spec_bytes();
                assert(nb.skip(prefix.spec_bytes().len() as int) =~= reason.spec_bytes());
                assert(nb.take(prefix.spec_bytes().len() as int) =~= prefix.spec_bytes());
                let is_status = same_bytes(reason.as_bytes(), "status".as_bytes());
                let skip = match driver {
                    DriverType::I915 => is_status,
                    DriverType::Xe => false,
                };
                if !skip {
                    if let Some(v) = value {
                        if v != 0 {
                            out.push(reason.to_owned());
                            assert(bytes_of(out@) =~= bytes_of(old_out).push(reason.spec_bytes()));
                        }
                    }
                }
            },
        }
        i += 1;
    }
    assert(entries@.take(i as int) =~= entries@);
    out
}

/// The label file that goes with a sensor input file: `temp1_input` has
/// `temp1_label`. None for a name that does not end in `_input`.
pub fn label_file_name(input: &str) -> (r: Option<String>)
    ensures
        match r {
            None => !is_suffix("_input".spec_bytes(), input.spec_bytes()),
            Some(l) => exists|base: Seq<u8>|
                input.spec_bytes() == base + "_input".spec_bytes() && encode_utf8(l@) == base
                    + "_label".spec_bytes(),
        },
{
    match strip_suffix(input, "_input") {
        None => None,
        Some(base) => {
            let mut label = base.to_owned();
            push_str(&mut label, "_label");
            Some(label)
        },
    }
}

/// The key a temperature is reported under: its label, or `gpu`.
pub fn temperature_key(label: Option<String>) -> (r: String)
    ensures
        r@ == match label {
            Some(l) => l@,
            None => "gpu"@,
        },
{
    match label {
        Some(l) => l,
        None => "gpu".to_owned(),
    }
}

} // verus!
