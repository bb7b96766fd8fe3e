//! Where the settings file and the themes are found. Whether a file exists is
//! asked of the file system by the caller; the library joins the paths and
//! picks the first place where the file was found.
use vstd::prelude::*;
use crate::text::{append_str, chars_of, string_from_chars};
use crate::yaml::string_views;

verus! {

/// Whether `c` separates path components on a platform whose main separator
/// is `sep`: `/` everywhere, and `sep` itself (`\` on Windows).
pub open spec fn is_sep(c: char, sep: char) -> bool {
    c == '/' || c == sep
}

/// A Windows drive prefix such as `C:` at the start of `s`.
pub open spec fn has_drive(s: Seq<char>, sep: char) -> bool {
    sep == '\\' && s.len() >= 2 && s[1] == ':' && (('a' <= s[0] && s[0] <= 'z') || ('A' <= s[0]
        && s[0] <= 'Z'))
}

/// `name` replaces the folder outright: it is absolute (`/...` on Unix), or
/// on Windows starts with a drive or with two separators (a network or device
/// prefix).
pub open spec fn replaces_dir(name: Seq<char>, sep: char) -> bool {
    ||| has_drive(name, sep)
    ||| (sep == '/' && name.len() >= 1 && name[0] == '/')
    ||| (sep == '\\' && name.len() >= 2 && is_sep(name[0], sep) && is_sep(name[1], sep))
}

/// `name` adjoined to folder `dir`, as `Path::join` does on a platform whose
/// main separator is `sep`: an absolute `name` replaces `dir`; on Windows a
/// `name` that starts with a separator keeps only the drive of `dir`; else
/// `sep` goes between them unless `dir` is empty, already ends with a
/// separator or is a bare drive such as `C:`.
pub open spec fn joined(dir: Seq<char>, name: Seq<char>, sep: char) -> Seq<char> {
    if replaces_dir(name, sep) {
        name
    } else if name.len() >= 1 && is_sep(name[0], sep) {
        (if has_drive(dir, sep) { dir.take(2) } else { Seq::<char>::empty() }) + name
    } else if dir.len() == 0 || is_sep(dir.last(), sep) || (has_drive(dir, sep) && dir.len() == 2) {
        dir + name
    } else {
        dir + seq![sep] + name
    }
}

fn is_sep_exec(c: char, sep: char) -> (r: bool)
    ensures
        r == is_sep(c, sep),
{
    c == '/' || c == sep
}

fn has_drive_exec(s: &Vec<char>, sep: char) -> (r: bool)
    ensures
        r == has_drive(s@, sep),
{
    if sep != '\\' || s.len() < 2 || s[1] != ':' {
        return false;
    }
    let c = s[0];
    ('a' <= c && c <= 'z') || ('A' <= c && c <= 'Z')
}

/// Joins `name` to `dir` as the platform's `Path::join` does, given the
/// platform's main separator `sep` (`std::path::MAIN_SEPARATOR`).
pub fn join_path(dir: &str, name: &str, sep: char) -> (p: String)
    requires
        sep == '/' || sep == '\\',
    ensures
        p@ == joined(dir@, name@, sep),
{
    let d = chars_of(dir);
    let n = chars_of(name);
    let replaces = has_drive_exec(&n, sep) || (sep == '/' && n.len() >= 1 && n[0] == '/') || (sep
        == '\\' && n.len() >= 2 && is_sep_exec(n[0], sep) && is_sep_exec(n[1], sep));
    if replaces {
        return String::from_str(name);
    }
    let mut out: Vec<char> = Vec::new();
    if n.len() >= 1 && is_sep_exec(n[0], sep) {
        if has_drive_exec(&d, sep) {
            out.push(d[0]);
            out.push(d[1]);
            assert(out@ =~= d@.take(2));
        }
    } else {
        out = chars_of(dir);
        if !(d.len() == 0 || is_sep_exec(d[d.len() - 1], sep) || (has_drive_exec(&d, sep) && d.len()
            == 2)) {
            out.push(sep);
        }
    }
    let ghost before = out@;
    append_str(&mut out, name);
    assert(out@ == before + name@);
    string_from_chars(&out)
}

/// `relative` under the first folder of `dirs` where it was found, else under
/// the working folder.
pub open spec fn resolved(dirs: Seq<Seq<char>>, found: Seq<bool>, relative: Seq<char>, sep: char) -> Seq<char>
    decreases dirs.len(),
{
    if dirs.len() == 0 || found.len() == 0 {
        joined("."@, relative, sep)
    } else if found[0] {
        joined(dirs[0], relative, sep)
    } else {
        resolved(dirs.drop_first(), found.drop_first(), relative, sep)
    }
}

/// Resolves `relative` against the folders searched, in order: `found[k]`
/// tells whether `join_path(dirs[k], relative, sep)` exists.
pub fn resolve_theme_path(dirs: &Vec<String>, found: &Vec<bool>, relative: &str, sep: char) -> (p: String)
    requires
        found@.len() == dirs@.len(),
        sep == '/' || sep == '\\',
    ensures
        p@ == resolved(string_views(dirs@), found@, relative@, sep),
{
    let ghost dv = string_views(dirs@);
    let mut i: usize = 0;
    assert(dv.skip(0) =~= dv && found@.skip(0) =~= found@);
    while i < dirs.len()
        invariant
            i <= dirs@.len(),
            found@.len() == dirs@.len(),
            dv == string_views(dirs@),
            dv.len() == dirs@.len(),
            sep == '/' || sep == '\\',
            resolved(dv, found@, relative@, sep) == resolved(dv.skip(i as int), found@.skip(i as int), relative@, sep),
        decreases dirs@.len() - i,
    {
        assert(dv.skip(i as int)[0] == dirs@[i as int]@);
        assert(found@.skip(i as int)[0] == found@[i as int]);
        assert(dv.skip(i as int).drop_first() =~= dv.skip(i + 1));
        assert(found@.skip(i as int).drop_first() =~= found@.skip(i + 1));
        if found[i] {
            return join_path(dirs[i].as_str(), relative, sep);
        }
        i += 1;
    }
    assert(dv.skip(i as int).len() == 0);
    proof {
        reveal_strlit(".");
    }
    join_path(".", relative, sep)
}

/// A plain relative name, such as the fixed names the program looks for,
/// always ends the path it is resolved to, whichever folder is picked.
pub proof fn resolved_ends_with_name(dirs: Seq<Seq<char>>, found: Seq<bool>, relative: Seq<char>, sep: char)
    requires
        !replaces_dir(relative, sep),
        !(relative.len() >= 1 && is_sep(relative[0], sep)),
    ensures
        resolved(dirs, found, relative, sep).len() >= relative.len(),
        resolved(dirs, found, relative, sep).subrange(
            resolved(dirs, found, relative, sep).len() - relative.len(),
            resolved(dirs, found, relative, sep).len() as int,
        ) == relative,
    decreases dirs.len(),
{
    let r = resolved(dirs, found, relative, sep);
    if dirs.len() == 0 || found.len() == 0 || found[0] {
        let d = if dirs.len() == 0 || found.len() == 0 { "."@ } else { dirs[0] };
        let pre = if d.len() == 0 || is_sep(d.last(), sep) || (has_drive(d, sep) && d.len() == 2) {
            d
        } else {
            d + seq![sep]
        };
        assert(r == pre + relative);
        assert(r.subrange(r.len() - relative.len(), r.len() as int) =~= relative);
    } else {
        resolved_ends_with_name(dirs.drop_first(), found.drop_first(), relative, sep);
    }
}

/// The settings file.
pub fn config_yaml_path(dirs: &Vec<String>, found: &Vec<bool>, sep: char) -> (p: String)
    requires
        found@.len() == dirs@.len(),
        sep == '/' || sep == '\\',
    ensures
        p@ == resolved(string_views(dirs@), found@, "config.yaml"@, sep),
{
    resolve_theme_path(dirs, found, "config.yaml", sep)
}

/// The folder holding every theme.
pub fn themes_root(dirs: &Vec<String>, found: &Vec<bool>, sep: char) -> (p: String)
    requires
        found@.len() == dirs@.len(),
        sep == '/' || sep == '\\',
    ensures
        p@ == resolved(string_views(dirs@), found@, "res/themes"@, sep),
{
    resolve_theme_path(dirs, found, "res/themes", sep)
}

/// The folder of theme `theme` under the themes folder `root`.
pub fn theme_dir(root: &str, theme: &str, sep: char) -> (p: String)
    requires
        sep == '/' || sep == '\\',
    ensures
        p@ == joined(root@, theme@, sep),
{
    join_path(root, theme, sep)
}

/// The `theme.yaml` of theme `theme` under the themes folder `root`.
pub fn theme_yaml_path(root: &str, theme: &str, sep: char) -> (p: String)
    requires
        sep == '/' || sep == '\\',
    ensures
        p@ == joined(joined(root@, theme@, sep), "theme.yaml"@, sep),
{
    let d = theme_dir(root, theme, sep);
    join_path(d.as_str(), "theme.yaml", sep)
}

} // verus!
