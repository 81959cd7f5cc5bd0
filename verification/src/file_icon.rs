//! Which icon a file-tree row shows for its entry.

use vstd::prelude::*;

use crate::file_tree::{FileIconOverride, FileIconStyle, FileKind, FileTreeProps};
use crate::git::{PathMap, spec_lookup};
use crate::style::Color;

verus! {

/// The final component of a path, as `std::path::Path::file_name` reads it.
pub uninterp spec fn path_file_name(path: Seq<char>) -> Option<Seq<char>>;

/// Where the last `.` of `s[..k]` stands, or -1.
pub open spec fn last_dot(s: Seq<char>, k: int) -> int
    decreases k,
{
    if k <= 0 || k > s.len() {
        -1
    } else if s[k - 1] == '.' {
        k - 1
    } else {
        last_dot(s, k - 1)
    }
}

/// The extension of a file name: none without a `.`, or when its only `.`
/// leads; otherwise what follows the last `.`.
pub open spec fn name_extension(name: Seq<char>) -> Option<Seq<char>> {
    let k = last_dot(name, name.len() as int);
    if k <= 0 {
        None
    } else {
        Some(name.subrange(k + 1, name.len() as int))
    }
}

/// The extension of a path, as `std::path::Path::extension` documents it:
/// none without a file name, else the extension of the file name.
pub open spec fn path_extension(path: Seq<char>) -> Option<Seq<char>> {
    match path_file_name(path) {
        Some(name) => name_extension(name),
        None => None,
    }
}

proof fn lemma_last_dot(s: Seq<char>, k: int)
    requires
        0 <= k <= s.len(),
    ensures
        -1 <= last_dot(s, k) < k,
        last_dot(s, k) >= 0 ==> s[last_dot(s, k)] == '.',
        forall|i: int| last_dot(s, k) < i < k ==> s[i] != '.',
    decreases k,
{
    if k > 0 {
        lemma_last_dot(s, k - 1);
    }
}

/// A name's extension is what follows its last dot, so it holds no dot
/// itself; a name has one exactly when a dot stands after its first
/// character.
pub proof fn law_name_extension(name: Seq<char>)
    ensures
        name_extension(name) is Some <==> exists|k: int| 0 < k < name.len() && name[k] == '.',
        name_extension(name) matches Some(e) ==> exists|k: int|
            0 < k < name.len() && name[k] == '.' && e == name.subrange(k + 1, name.len() as int),
        name_extension(name) matches Some(e) ==> forall|i: int| 0 <= i < e.len() ==> e[i] != '.',
{
    lemma_last_dot(name, name.len() as int);
    let k = last_dot(name, name.len() as int);
    if exists|j: int| 0 < j < name.len() && name[j] == '.' {
        let j = choose|j: int| 0 < j < name.len() && name[j] == '.';
        assert(k >= j);
    }
    if k > 0 {
        let e = name.subrange(k + 1, name.len() as int);
        assert forall|i: int| 0 <= i < e.len() implies e[i] != '.' by {
            assert(e[i] == name[k + 1 + i]);
        }
    }
}

/// The view of an optional string.
pub open spec fn opt_view(o: Option<String>) -> Option<Seq<char>> {
    match o {
        Some(s) => Some(s@),
        None => None,
    }
}

/// Calls `std::path::Path::file_name`; the result is named, not stated.
#[verifier::external_body]
pub(crate) fn file_name_of(path: &str) -> (r: Option<String>)
    ensures
        opt_view(r) == path_file_name(path@),
{
    std::path::Path::new(path).file_name().map(|n| n.to_string_lossy().into_owned())
}

/// See [`name_extension`].
pub fn extension_of_name(name: &str) -> (r: Option<String>)
    ensures
        opt_view(r) == name_extension(name@),
{
    let n = name.unicode_len();
    let mut k: usize = n;
    while k > 0 && name.get_char(k - 1) != '.'
        invariant
            k <= n,
            n == name@.len(),
            last_dot(name@, n as int) == last_dot(name@, k as int),
        decreases k,
    {
        k = k - 1;
    }
    if k <= 1 {
        None
    } else {
        Some(name.substring_char(k, n).to_owned())
    }
}

/// The extension of a path; see [`path_extension`].
pub fn extension_of(path: &str) -> (r: Option<String>)
    ensures
        opt_view(r) == path_extension(path@),
{
    match file_name_of(path) {
        Some(name) => extension_of_name(name.as_str()),
        None => None,
    }
}

/// An icon as drawn: its text and an optional foreground colour.
#[derive(Clone, Debug, PartialEq, Eq)]
pub struct IconSpan {
    pub text: String,
    pub fg: Option<Color>,
}

/// What the nerd-font glyph tables give for an entry: its glyph and colour.
#[derive(Clone, Debug, PartialEq, Eq)]
pub struct NerdIcon {
    pub glyph: String,
    pub color: Option<Color>,
}

/// The override stored for an optional name.
pub open spec fn override_for(overrides: PathMap<FileIconOverride>, name: Option<Seq<char>>) -> Option<
    FileIconOverride,
> {
    match name {
        Some(n) => spec_lookup(overrides.entries@, n),
        None => None,
    }
}

/// The override that applies to an entry of `kind` at `path`: by name, then
/// (for files) by extension.
pub open spec fn spec_icon_override(kind: FileKind, path: Seq<char>, overrides: PathMap<FileIconOverride>) -> Option<
    FileIconOverride,
> {
    match override_for(overrides, path_file_name(path)) {
        Some(o) => Some(o),
        None => if kind == FileKind::File {
            override_for(overrides, path_extension(path))
        } else {
            None
        },
    }
}

/// The nerd-font text of a directory row: the arrow (unless it is the root or
/// arrows are off) in front of the folder glyph.
pub open spec fn spec_directory_glyph(glyph: Seq<char>, expanded: bool, is_root: bool, show_arrows: bool) -> Seq<
    char,
> {
    if is_root || !show_arrows {
        glyph
    } else if expanded {
        "\u{f47c} "@ + glyph
    } else {
        "\u{f460} "@ + glyph
    }
}

/// The icon text and colour of an entry.
pub open spec fn spec_icon(
    kind: FileKind,
    path: Seq<char>,
    expanded: bool,
    is_root: bool,
    props: FileTreeProps,
    nerd: NerdIcon,
) -> (Seq<char>, Option<Color>) {
    spec_icon_with(kind, path, expanded, is_root, props, nerd.glyph@, nerd.color)
}

/// The icon text and colour of an entry whose nerd-font glyph is `glyph`
/// in `color`.
pub open spec fn spec_icon_with(
    kind: FileKind,
    path: Seq<char>,
    expanded: bool,
    is_root: bool,
    props: FileTreeProps,
    glyph: Seq<char>,
    color: Option<Color>,
) -> (Seq<char>, Option<Color>) {
    match spec_icon_override(kind, path, props.icon_overrides) {
        Some(o) => (o.icon@, o.color),
        None => {
            let fg = if props.icon_style == FileIconStyle::NerdFontColored { color } else { None };
            if props.icon_style == FileIconStyle::Text {
                (
                    match kind {
                        FileKind::Directory => if expanded {
                            props.opened_directory_icon@
                        } else {
                            props.directory_icon@
                        },
                        FileKind::File => props.file_icon@,
                        FileKind::Symlink => props.symlink_icon@,
                        FileKind::Other => props.other_icon@,
                    },
                    None,
                )
            } else {
                (
                    match kind {
                        FileKind::Directory => spec_directory_glyph(glyph, expanded, is_root, props.show_arrows),
                        FileKind::File => glyph,
                        FileKind::Symlink => "\u{f0054}"@,
                        FileKind::Other => "\u{f0214}"@,
                    },
                    fg,
                )
            }
        },
    }
}

/// The icon an entry shows. An override registered for the entry's name
/// (or, for a file, its extension) wins outright. Otherwise text icons come
/// from the properties, one per kind, a directory's depending on whether it
/// is open, never coloured; nerd-font icons are the glyph tables' glyph
/// (coloured only in the coloured style), with a directory's arrow in front
/// (pointing one way when open and another when closed) unless it is the
/// root or arrows are off, and fixed glyphs for symlinks and other entries.
pub proof fn law_icon(
    kind: FileKind,
    path: Seq<char>,
    expanded: bool,
    is_root: bool,
    props: FileTreeProps,
    glyph: Seq<char>,
    color: Option<Color>,
)
    ensures
        ({
            let r = spec_icon_with(kind, path, expanded, is_root, props, glyph, color);
            let o = spec_icon_override(kind, path, props.icon_overrides);
            let text = props.icon_style == FileIconStyle::Text;
            let arrowed = kind == FileKind::Directory && !is_root && props.show_arrows;
            &&& o matches Some(v) ==> r == (v.icon@, v.color)
            &&& (o is None && text) ==> r.1 is None
            &&& (o is None && text && kind == FileKind::Directory && expanded) ==> r.0 == props.opened_directory_icon@
            &&& (o is None && text && kind == FileKind::Directory && !expanded) ==> r.0 == props.directory_icon@
            &&& (o is None && text && kind == FileKind::File) ==> r.0 == props.file_icon@
            &&& (o is None && text && kind == FileKind::Symlink) ==> r.0 == props.symlink_icon@
            &&& (o is None && text && kind == FileKind::Other) ==> r.0 == props.other_icon@
            &&& (o is None && !text) ==> r.1 == (if props.icon_style == FileIconStyle::NerdFontColored {
                color
            } else {
                None
            })
            &&& (o is None && !text && (kind == FileKind::File || (kind == FileKind::Directory && !arrowed))) ==> r.0
                == glyph
            &&& (o is None && !text && arrowed) ==> r.0.len() == glyph.len() + 2 && r.0.subrange(2, r.0.len() as int)
                == glyph && r.0[1] == ' '
            &&& (o is None && !text && arrowed) ==> r.0[0] != spec_icon_with(
                kind,
                path,
                !expanded,
                is_root,
                props,
                glyph,
                color,
            ).0[0]
        }),
{
    reveal_strlit("\u{f47c} ");
    reveal_strlit("\u{f460} ");
    let r = spec_icon_with(kind, path, expanded, is_root, props, glyph, color);
    if spec_icon_override(kind, path, props.icon_overrides) is None && props.icon_style != FileIconStyle::Text
        && kind == FileKind::Directory && !is_root && props.show_arrows {
        assert(r.0.subrange(2, r.0.len() as int) =~= glyph);
    }
}

/// The override stored for `name`, cloned.
pub(crate) fn lookup_override(overrides: &PathMap<FileIconOverride>, name: &Option<String>) -> (r: Option<FileIconOverride>)
    ensures
        r matches Some(o) ==> override_for(*overrides, opt_view(*name)) matches Some(p) && o.icon@ == p.icon@
            && o.color == p.color,
        r is None ==> override_for(*overrides, opt_view(*name)) is None,
{
    match name {
        Some(n) => match overrides.position(n.as_str()) {
            Some(i) => {
                let o = &overrides.entries[i].1;
                Some(FileIconOverride { icon: o.icon.clone(), color: o.color })
            },
            None => None,
        },
        None => None,
    }
}

impl FileKind {
    /// The icon of an entry of this kind at `path`. An override registered for
    /// the entry's name (or, for files, its extension) wins; otherwise the
    /// text icons of `props` are used, or the nerd-font glyph in `nerd` (the
    /// glyph tables' answer for this entry), coloured when the style asks for
    /// colour.
    pub fn icon(self, path: &str, expanded: bool, is_root: bool, props: &FileTreeProps, nerd: &NerdIcon) -> (r:
        IconSpan)
        ensures
            (r.text@, r.fg) == spec_icon(self, path@, expanded, is_root, *props, *nerd),
    {
        let name = file_name_of(path);
        let by_name = lookup_override(&props.icon_overrides, &name);
        let found = match by_name {
            Some(o) => Some(o),
            None => {
                if self == FileKind::File {
                    let ext = extension_of(path);
                    lookup_override(&props.icon_overrides, &ext)
                } else {
                    None
                }
            },
        };
        if let Some(o) = found {
            return IconSpan { text: o.icon, fg: o.color };
        }
        let fg = if props.icon_style == FileIconStyle::NerdFontColored {
            nerd.color
        } else {
            None
        };
        if props.icon_style == FileIconStyle::Text {
            let text = match self {
                FileKind::Directory => if expanded {
                    props.opened_directory_icon.clone()
                } else {
                    props.directory_icon.clone()
                },
                FileKind::File => props.file_icon.clone(),
                FileKind::Symlink => props.symlink_icon.clone(),
                FileKind::Other => props.other_icon.clone(),
            };
            IconSpan { text, fg: None }
        } else {
            let text = match self {
                FileKind::Directory => {
                    if is_root || !props.show_arrows {
                        nerd.glyph.clone()
                    } else {
                        let arrow = if expanded {
                            String::from_str("\u{f47c} ")
                        } else {
                            String::from_str("\u{f460} ")
                        };
                        arrow.concat(nerd.glyph.as_str())
                    }
                },
                FileKind::File => nerd.glyph.clone(),
                FileKind::Symlink => String::from_str("\u{f0054}"),
                FileKind::Other => String::from_str("\u{f0214}"),
            };
            IconSpan { text, fg }
        }
    }
}

} // verus!
