use vstd::prelude::*;

use crate::text::{
    chars_of, has_prefix_at, is_white_space, starts_with, str_eq, string_from_chars, trim,
    trim_end_seq, trim_range, trim_seq, trim_start_seq,
};

verus! {

/// A command written to the daemon's command file.
#[derive(Debug, Clone)]
pub enum Command {
    /// `stop`: switch the backlight off and exit.
    Stop,
    /// `reload`: reload the active profile from disk.
    Reload,
    /// `profile <name>`: switch to the named profile.
    SwitchProfile(String),
    /// `brightness_up`: raise the LED brightness by one step.
    BrightnessUp,
    /// `brightness_down`: lower the LED brightness by one step.
    BrightnessDown,
    /// Anything else; ignored.
    Unknown,
}

/// `s` with every leading repetition of `p` removed (`str::trim_start_matches`).
pub open spec fn strip_prefixes(s: Seq<char>, p: Seq<char>) -> Seq<char>
    decreases s.len(),
{
    if p.len() > 0 && starts_with(s, p) {
        strip_prefixes(s.skip(p.len() as int), p)
    } else {
        s
    }
}

/// The profile name of a `profile <name>` command line.
pub open spec fn profile_argument(text: Seq<char>) -> Seq<char> {
    trim_seq(strip_prefixes(text, "profile "@))
}

/// The command that the contents of the command file carry: the contents
/// without surrounding white space, or none when nothing else is left.
pub fn command_text(content: &str) -> (res: Option<String>)
    ensures
        trim_seq(content@).len() == 0 ==> res is None,
        trim_seq(content@).len() > 0 ==> (res matches Some(t) && t@ == trim_seq(content@)),
{
    let t = trim(content);
    if t.as_str().unicode_len() == 0 {
        None
    } else {
        Some(t)
    }
}

/// Classifies a (trimmed) command line. `stop`, `reload`, `brightness_up` and
/// `brightness_down` must match exactly; a line that starts with `profile `
/// switches to the profile named by the rest of the line, after every leading
/// `profile ` and surrounding white space are removed.
pub fn parse_command(text: &str) -> (cmd: Command)
    ensures
        match cmd {
            Command::Stop => text@ == "stop"@,
            Command::Reload => text@ == "reload"@,
            Command::BrightnessUp => text@ == "brightness_up"@,
            Command::BrightnessDown => text@ == "brightness_down"@,
            Command::SwitchProfile(name) => {
                &&& text@ != "stop"@
                &&& text@ != "reload"@
                &&& text@ != "brightness_up"@
                &&& text@ != "brightness_down"@
                &&& starts_with(text@, "profile "@)
                &&& name@ == profile_argument(text@)
            },
            Command::Unknown => {
                &&& text@ != "stop"@
                &&& text@ != "reload"@
                &&& text@ != "brightness_up"@
                &&& text@ != "brightness_down"@
                &&& !starts_with(text@, "profile "@)
            },
        },
{
    if str_eq(text, "stop") {
        return Command::Stop;
    }
    if str_eq(text, "reload") {
        return Command::Reload;
    }
    if str_eq(text, "brightness_up") {
        return Command::BrightnessUp;
    }
    if str_eq(text, "brightness_down") {
        return Command::BrightnessDown;
    }
    let v = chars_of(text);
    assert(v@.skip(0) =~= v@);
    if !has_prefix_at(&v, 0, "profile ") {
        return Command::Unknown;
    }
    let prefix = "profile ";
    let plen = prefix.unicode_len();
    proof {
        reveal_strlit("profile ");
    }
    let mut i: usize = 0;
    while has_prefix_at(&v, i, prefix)
        invariant
            plen == prefix@.len(),
            plen == 8,
            prefix@ == "profile "@,
            v@ == text@,
            i <= v.len(),
            strip_prefixes(v@, prefix@) == strip_prefixes(v@.skip(i as int), prefix@),
        decreases v@.len() - i,
    {
        assert(v@.skip(i as int).skip(plen as int) =~= v@.skip(i + plen));
        i += plen;
    }
    assert(strip_prefixes(v@.skip(i as int), prefix@) == v@.skip(i as int));
    let (a, b) = trim_range(&v, i, v.len());
    assert(v@.subrange(i as int, v@.len() as int) =~= v@.skip(i as int));
    Command::SwitchProfile(string_from_chars(&v, a, b))
}

/// Writing `profile ` followed by a name switches to exactly that name, when the
/// name has no surrounding white space and does not itself begin with `profile `.
pub proof fn lemma_switch_names_the_profile(name: Seq<char>)
    requires
        name.len() > 0,
        !is_white_space(name[0]),
        !is_white_space(name.last()),
        !starts_with(name, "profile "@),
    ensures
        starts_with("profile "@ + name, "profile "@),
        profile_argument("profile "@ + name) == name,
{
    reveal_strlit("profile ");
    let p = "profile "@;
    let line = p + name;
    assert(line.take(p.len() as int) =~= p);
    assert(line.skip(p.len() as int) =~= name);
    assert(strip_prefixes(line, p) == strip_prefixes(name, p));
    assert(strip_prefixes(name, p) == name);
    assert(trim_start_seq(name) == name);
    assert(trim_end_seq(name) == name);
}

} // verus!
