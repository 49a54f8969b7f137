use vstd::prelude::*;

verus! {

/// `c` is `p`, or the upper-case form of the ASCII letter `p`.
pub open spec fn same_letter(c: char, p: char) -> bool {
    c == p || ('A' <= c && c <= 'Z' && (c as u32) + 32 == (p as u32))
}

/// `s` begins with `p`, ASCII letters compared without regard to case.
pub open spec fn starts_with_ignoring_case(s: Seq<char>, p: Seq<char>) -> bool {
    p.len() <= s.len() && forall|i: int| 0 <= i < p.len() ==> same_letter(#[trigger] s[i], p[i])
}

fn same_letter_exec(c: char, p: char) -> (r: bool)
    ensures
        r == same_letter(c, p),
{
    c == p || ('A' <= c && c <= 'Z' && (c as u32) + 32 == (p as u32))
}

/// The folder that an installation archive unpacks to is named after the game:
/// its name starts with `tes3mp`, in any case.
pub fn is_install_folder_name(name: &str) -> (r: bool)
    ensures
        r == starts_with_ignoring_case(name@, "tes3mp"@),
{
    let s = crate::text::chars_of(name);
    let p = crate::text::chars_of("tes3mp");
    if p.len() > s.len() {
        return false;
    }
    let mut i: usize = 0;
    while i < p.len()
        invariant
            p@.len() <= s@.len(),
            i <= p@.len(),
            s@ == name@,
            p@ == "tes3mp"@,
            forall|j: int| 0 <= j < i ==> same_letter(#[trigger] s@[j], p@[j]),
        decreases p@.len() - i,
    {
        if !same_letter_exec(s[i], p[i]) {
            return false;
        }
        i = i + 1;
    }
    true
}

/// Where the running program is copied before it is replaced.
pub open spec fn backup_of(exe: Seq<char>) -> Seq<char> {
    exe + ".backup"@
}

/// The path of the copy that is kept of the program `exe` while it is replaced.
pub fn backup_path(exe: &str) -> (r: String)
    ensures
        r@ == backup_of(exe@),
{
    let mut r = String::from_str(exe);
    r.append(".backup");
    r
}

/// The batch script that, once the program has exited, copies the downloaded
/// program `new_exe` over `current_exe`, starts it and deletes the download and
/// itself; where the copy fails, it puts the `backup` back instead.
pub open spec fn update_script_text(new_exe: Seq<char>, current_exe: Seq<char>, backup: Seq<char>) -> Seq<char> {
    "@echo off\ntimeout /t 2 /nobreak >nul\ncopy \""@ + new_exe + "\" \""@ + current_exe
        + "\"\nif %errorlevel% equ 0 (\n    del \""@ + new_exe
        + "\"\n    del \"%~f0\"\n    start \"\" \""@ + current_exe
        + "\"\n) else (\n    echo Update failed, restoring backup...\n    copy \""@ + backup
        + "\" \""@ + current_exe + "\"\n    del \""@ + backup + "\"\n    del \"%~f0\"\n)\n"@
}

/// Writes out the replacement script described by `update_script_text`.
pub fn update_script(new_exe: &str, current_exe: &str, backup: &str) -> (r: String)
    ensures
        r@ == update_script_text(new_exe@, current_exe@, backup@),
{
    let mut r = String::from_str("@echo off\ntimeout /t 2 /nobreak >nul\ncopy \"");
    r.append(new_exe);
    r.append("\" \"");
    r.append(current_exe);
    r.append("\"\nif %errorlevel% equ 0 (\n    del \"");
    r.append(new_exe);
    r.append("\"\n    del \"%~f0\"\n    start \"\" \"");
    r.append(current_exe);
    r.append("\"\n) else (\n    echo Update failed, restoring backup...\n    copy \"");
    r.append(backup);
    r.append("\" \"");
    r.append(current_exe);
    r.append("\"\n    del \"");
    r.append(backup);
    r.append("\"\n    del \"%~f0\"\n)\n");
    r
}

} // verus!
