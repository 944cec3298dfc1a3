//! The machine-readable status lines printed in debug mode.
use vstd::prelude::*;
use vstd::string::*;

verus! {

/// Whether output is in debug mode: plain `key=value` status lines instead
/// of coloured messages.
pub struct DebugMode {
    enabled: bool,
}

/// The `key=value` pairs joined by single spaces.
pub open spec fn spec_pairs(fields: Seq<(Seq<char>, Seq<char>)>) -> Seq<char>
    decreases fields.len(),
{
    if fields.len() == 0 {
        Seq::empty()
    } else if fields.len() == 1 {
        fields[0].0 + seq!['='] + fields[0].1
    } else {
        spec_pairs(fields.drop_last()) + seq![' '] + fields.last().0 + seq!['='] + fields.last().1
    }
}

impl DebugMode {
    /// The mode with debug output on or off.
    pub fn new(enabled: bool) -> (res: DebugMode)
        ensures
            res.enabled() == enabled,
    {
        DebugMode { enabled }
    }

    /// Whether debug output is on.
    pub closed spec fn enabled(&self) -> bool {
        self.enabled
    }
}

/// Turns debug output on or off.
pub fn set_debug(mode: &mut DebugMode, enabled: bool)
    ensures
        final(mode).enabled() == enabled,
{
    mode.enabled = enabled;
}

/// Whether debug output is on.
pub fn is_debug(mode: &DebugMode) -> (res: bool)
    ensures
        res == mode.enabled(),
{
    mode.enabled
}

/// The line `text`, in debug mode only.
fn when_debug(mode: &DebugMode, text: String) -> (res: Option<String>)
    ensures
        mode.enabled() ==> (res matches Some(l) && l@ == text@),
        !mode.enabled() ==> res is None,
{
    if mode.enabled {
        Some(text)
    } else {
        None
    }
}

/// `status=ok action={action}`, in debug mode only.
pub fn status_ok(mode: &DebugMode, action: &str) -> (res: Option<String>)
    ensures
        mode.enabled() ==> (res matches Some(l) && l@ == "status=ok action="@ + action@),
        !mode.enabled() ==> res is None,
{
    let mut line = String::from_str("status=ok action=");
    line.append(action);
    when_debug(mode, line)
}

/// `status=ok action={action} {key}={value}`, in debug mode only.
pub fn status_ok_kv(mode: &DebugMode, action: &str, key: &str, value: &str) -> (res: Option<
    String,
>)
    ensures
        mode.enabled() ==> (res matches Some(l) && l@ == "status=ok action="@ + action@ + seq![' ']
            + key@ + seq!['='] + value@),
        !mode.enabled() ==> res is None,
{
    proof {
        reveal_strlit(" ");
        reveal_strlit("=");
    }
    let mut line = String::from_str("status=ok action=");
    line.append(action);
    line.append(" ");
    line.append(key);
    line.append("=");
    line.append(value);
    when_debug(mode, line)
}

/// `status=ok action={action} {k1}={v1} {k2}={v2} ...`, in debug mode only.
pub fn status_ok_fields(mode: &DebugMode, action: &str, fields: &Vec<(String, String)>) -> (res:
    Option<String>)
    ensures
        mode.enabled() ==> (res matches Some(l) && l@ == "status=ok action="@ + action@ + seq![' ']
            + spec_pairs(fields@.map_values(|f: (String, String)| (f.0@, f.1@)))),
        !mode.enabled() ==> res is None,
{
    proof {
        reveal_strlit(" ");
        reveal_strlit("=");
    }
    let ghost fs = fields@.map_values(|f: (String, String)| (f.0@, f.1@));
    let mut line = String::from_str("status=ok action=");
    line.append(action);
    line.append(" ");
    let ghost lead = line@;
    proof {
        assert(fs.take(0) =~= Seq::<(Seq<char>, Seq<char>)>::empty());
    }
    for i in 0..fields.len()
        invariant
            fs == fields@.map_values(|f: (String, String)| (f.0@, f.1@)),
            line@ == lead + spec_pairs(fs.take(i as int)),
    {
        proof {
            reveal_strlit(" ");
            reveal_strlit("=");
            assert(fs.take(i + 1).drop_last() =~= fs.take(i as int));
            assert(fs.take(i + 1).last() == fs[i as int]);
        }
        if i > 0 {
            line.append(" ");
        }
        line.append(fields[i].0.as_str());
        line.append("=");
        line.append(fields[i].1.as_str());
        proof {
            if i == 0 {
                assert(fs.take(1).len() == 1);
                assert(spec_pairs(fs.take(0)) =~= Seq::<char>::empty());
            }
            assert(line@ =~= lead + spec_pairs(fs.take(i + 1)));
        }
    }
    proof {
        assert(fs.take(fields@.len() as int) =~= fs);
    }
    when_debug(mode, line)
}

/// `status=error message={message}`, for the error stream, in debug mode
/// only.
pub fn status_error(mode: &DebugMode, message: &str) -> (res: Option<String>)
    ensures
        mode.enabled() ==> (res matches Some(l) && l@ == "status=error message="@ + message@),
        !mode.enabled() ==> res is None,
{
    let mut line = String::from_str("status=error message=");
    line.append(message);
    when_debug(mode, line)
}

/// `status=ok action=hook command={cmd}`, in debug mode only.
pub fn hook(mode: &DebugMode, cmd: &str) -> (res: Option<String>)
    ensures
        mode.enabled() ==> (res matches Some(l) && l@ == "status=ok action=hook command="@ + cmd@),
        !mode.enabled() ==> res is None,
{
    let mut line = String::from_str("status=ok action=hook command=");
    line.append(cmd);
    when_debug(mode, line)
}

/// `{key}={value}`, in debug mode only.
pub fn info(mode: &DebugMode, key: &str, value: &str) -> (res: Option<String>)
    ensures
        mode.enabled() ==> (res matches Some(l) && l@ == key@ + seq!['='] + value@),
        !mode.enabled() ==> res is None,
{
    proof {
        reveal_strlit("=");
    }
    let mut line = String::from_str(key);
    line.append("=");
    line.append(value);
    when_debug(mode, line)
}

/// `status=ok action=dependency name={name}`, in debug mode only.
pub fn dependency(mode: &DebugMode, name: &str) -> (res: Option<String>)
    ensures
        mode.enabled() ==> (res matches Some(l) && l@ == "status=ok action=dependency name="@
            + name@),
        !mode.enabled() ==> res is None,
{
    let mut line = String::from_str("status=ok action=dependency name=");
    line.append(name);
    when_debug(mode, line)
}

/// `status=ok action=file name={name}`, in debug mode only.
pub fn file_entry(mode: &DebugMode, name: &str) -> (res: Option<String>)
    ensures
        mode.enabled() ==> (res matches Some(l) && l@ == "status=ok action=file name="@ + name@),
        !mode.enabled() ==> res is None,
{
    let mut line = String::from_str("status=ok action=file name=");
    line.append(name);
    when_debug(mode, line)
}

/// `status=error action=missing_dependency name={name}`, for the error
/// stream, in debug mode only.
pub fn missing_dep(mode: &DebugMode, name: &str) -> (res: Option<String>)
    ensures
        mode.enabled() ==> (res matches Some(l) && l@
            == "status=error action=missing_dependency name="@ + name@),
        !mode.enabled() ==> res is None,
{
    let mut line = String::from_str("status=error action=missing_dependency name=");
    line.append(name);
    when_debug(mode, line)
}

} // verus!
