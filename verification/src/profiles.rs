use vstd::prelude::*;
use vstd::string::StringExecFns;

use crate::animation::{build_frames, profile_frames};
use crate::error::KbdError;
use crate::types::{ColorProfile, Frame, ProfileSelector};

verus! {

/// Where the keyboard animation called `name` is stored: the file `<name>.json`
/// joined to `/etc/tailord/keyboard` as `Path::join` does, so that a name beginning
/// with `/` replaces the directory.
pub open spec fn keyboard_path(name: Seq<char>) -> Seq<char> {
    if name.len() > 0 && name[0] == '/' {
        name + ".json"@
    } else {
        "/etc/tailord/keyboard/"@ + name + ".json"@
    }
}

/// Where the profile selector called `name` is stored.
pub open spec fn selector_path(name: Seq<char>) -> Seq<char> {
    "/etc/tailord/profiles/"@ + name + ".json"@
}

/// The file that the active-profile link points to, given the link's target:
/// an absolute target is taken as it is, a relative one is resolved against
/// `/etc/tailord`, the directory that holds the link.
pub open spec fn link_target_path(target: Seq<char>) -> Seq<char> {
    if target.len() > 0 && target[0] == '/' {
        target
    } else {
        "/etc/tailord/"@ + target
    }
}

/// The path of the keyboard animation file called `name`.
pub fn keyboard_profile_path(name: &str) -> (path: String)
    ensures
        path@ == keyboard_path(name@),
{
    let mut path = if name.unicode_len() > 0 && name.get_char(0) == '/' {
        "".to_owned()
    } else {
        "/etc/tailord/keyboard/".to_owned()
    };
    path.append(name);
    path.append(".json");
    proof {
        reveal_strlit("");
    }
    path
}

/// The path of the profile selector file called `name`.
pub fn profile_selector_path(name: &str) -> (path: String)
    ensures
        path@ == selector_path(name@),
{
    let mut path = "/etc/tailord/profiles/".to_owned();
    path.append(name);
    path.append(".json");
    path
}

/// Resolves the target of the active-profile link to a path.
pub fn resolve_link_target(target: &str) -> (path: String)
    ensures
        path@ == link_target_path(target@),
{
    if target.unicode_len() > 0 && target.get_char(0) == '/' {
        target.to_owned()
    } else {
        let mut path = "/etc/tailord/".to_owned();
        path.append(target);
        path
    }
}

/// The keyboard animation that a profile selector chooses: the one named by its
/// first LED entry; a selector without LED entries is refused.
pub fn keyboard_path_for(selector: &ProfileSelector) -> (res: Result<String, KbdError>)
    ensures
        selector.leds@.len() == 0 ==> res matches Err(KbdError::NoLeds),
        selector.leds@.len() > 0 ==> (res matches Ok(path) && path@ == keyboard_path(
            selector.leds@[0].profile@,
        )),
{
    if selector.leds.len() == 0 {
        Err(KbdError::NoLeds)
    } else {
        Ok(keyboard_profile_path(selector.leds[0].profile.as_str()))
    }
}

/// The frames of a keyboard animation, refused when it yields none.
pub fn frames_for_profile(profile: &ColorProfile) -> (res: Result<Vec<Frame>, KbdError>)
    ensures
        profile_frames(*profile).len() == 0 ==> res matches Err(KbdError::NoFrames),
        profile_frames(*profile).len() > 0 ==> (res matches Ok(frames) && frames@ == profile_frames(
            *profile,
        )),
{
    let frames = build_frames(profile);
    if frames.len() == 0 {
        Err(KbdError::NoFrames)
    } else {
        Ok(frames)
    }
}

/// The keyboard animation file of a name that does not begin with `/` lies in
/// `/etc/tailord/keyboard/` and is called exactly `<name>.json`: the whole name, every
/// character unchanged, stands between the directory and the `.json` extension. A name
/// beginning with `/` is itself the path, with `.json` appended.
pub proof fn lemma_keyboard_path_holds_name(name: Seq<char>)
    ensures
        !(name.len() > 0 && name[0] == '/') ==> {
            let path = keyboard_path(name);
            &&& path.len() == 22 + name.len() as int + 5
            &&& path.take(22) == "/etc/tailord/keyboard/"@
            &&& path.subrange(22, 22 + name.len() as int) == name
            &&& path.skip(22 + name.len() as int) == ".json"@
        },
        (name.len() > 0 && name[0] == '/') ==> {
            let path = keyboard_path(name);
            &&& path.len() == name.len() + 5
            &&& path.take(name.len() as int) == name
            &&& path.skip(name.len() as int) == ".json"@
        },
{
    reveal_strlit("/etc/tailord/keyboard/");
    reveal_strlit(".json");
    let path = keyboard_path(name);
    if !(name.len() > 0 && name[0] == '/') {
        assert(path.take(22) =~= "/etc/tailord/keyboard/"@);
        assert(path.subrange(22, 22 + name.len() as int) =~= name);
        assert(path.skip(22 + name.len() as int) =~= ".json"@);
    } else {
        assert(path.take(name.len() as int) =~= name);
        assert(path.skip(name.len() as int) =~= ".json"@);
    }
}

/// Different keyboard animation names of the same kind (both relative, or both
/// beginning with `/`) give different files. (An absolute name can name the same file
/// as a relative one, as `Path::join` does: `/etc/tailord/keyboard/x` and `x`.)
pub proof fn lemma_keyboard_path_injective(a: Seq<char>, b: Seq<char>)
    requires
        (a.len() > 0 && a[0] == '/') == (b.len() > 0 && b[0] == '/'),
        keyboard_path(a) == keyboard_path(b),
    ensures
        a == b,
{
    lemma_keyboard_path_holds_name(a);
    lemma_keyboard_path_holds_name(b);
    let p = keyboard_path(a);
    if a.len() > 0 && a[0] == '/' {
        assert(a =~= p.take(a.len() as int));
        assert(b =~= p.take(b.len() as int));
    } else {
        assert(a =~= p.subrange(22, 22 + a.len() as int));
        assert(b =~= p.subrange(22, 22 + b.len() as int));
    }
}

/// A profile selector file lies in `/etc/tailord/profiles/` and is called exactly
/// `<name>.json`: the whole name, every character unchanged, stands between the
/// directory and the `.json` extension.
pub proof fn lemma_selector_path_holds_name(name: Seq<char>)
    ensures
        selector_path(name).len() == 22 + name.len() as int + 5,
        selector_path(name).take(22) == "/etc/tailord/profiles/"@,
        selector_path(name).subrange(22, 22 + name.len() as int) == name,
        selector_path(name).skip(22 + name.len() as int) == ".json"@,
{
    reveal_strlit("/etc/tailord/profiles/");
    reveal_strlit(".json");
    let path = selector_path(name);
    assert(path.take(22) =~= "/etc/tailord/profiles/"@);
    assert(path.subrange(22, 22 + name.len() as int) =~= name);
    assert(path.skip(22 + name.len() as int) =~= ".json"@);
}

/// Different profile names give different selector files.
pub proof fn lemma_selector_path_injective(a: Seq<char>, b: Seq<char>)
    requires
        selector_path(a) == selector_path(b),
    ensures
        a == b,
{
    lemma_selector_path_holds_name(a);
    lemma_selector_path_holds_name(b);
    let p = selector_path(a);
    assert(a =~= p.subrange(22, 22 + a.len() as int));
    assert(b =~= p.subrange(22, 22 + b.len() as int));
}

/// An absolute link target is used as it is, character for character; a relative
/// one is the target itself placed after `/etc/tailord/`. Either way the result is
/// absolute, so resolving it again changes nothing.
pub proof fn lemma_link_target_resolution(target: Seq<char>)
    ensures
        (target.len() > 0 && target[0] == '/') ==> link_target_path(target) == target,
        !(target.len() > 0 && target[0] == '/') ==> {
            let path = link_target_path(target);
            &&& path.len() == 13 + target.len()
            &&& path.take(13) == "/etc/tailord/"@
            &&& path.skip(13) == target
        },
        link_target_path(target).len() > 0 && link_target_path(target)[0] == '/',
        link_target_path(link_target_path(target)) == link_target_path(target),
{
    reveal_strlit("/etc/tailord/");
    let path = link_target_path(target);
    if !(target.len() > 0 && target[0] == '/') {
        assert(path.take(13) =~= "/etc/tailord/"@);
        assert(path.skip(13) =~= target);
        assert(path[0] == "/etc/tailord/"@[0]);
    }
}

} // verus!
