//! The installed extensions, and how versions compare.
use vstd::prelude::*;

use super::manifest::{ExtensionManifest, ExtensionSource, SourceKind};
use crate::text::{chars_eq, find_char, find_char_exec, slice_chars, str_chars, trim, trim_exec};

verus! {

#[derive(Debug, Clone)]
pub struct InstalledExtension {
    pub manifest: ExtensionManifest,
    pub path: String,
    pub lib_path: Option<String>,
    pub enabled: bool,
    /// Where this extension was installed from.
    pub source: Option<ExtensionSource>,
    /// The newer version, when an update is available.
    pub update_available: Option<String>,
}

pub struct ExtensionRegistry {
    pub installed: Vec<InstalledExtension>,
    pub extensions_dir: String,
}

/// Some installed extension has the id `id`.
pub open spec fn has_extension(installed: Seq<InstalledExtension>, id: Seq<char>) -> bool {
    exists|i: int| 0 <= i < installed.len() && (#[trigger] installed[i]).manifest.extension.id@ == id
}

impl ExtensionRegistry {
    /// An empty registry over the extensions directory `extensions_dir`.
    pub fn new(extensions_dir: String) -> (r: Self)
        ensures
            r.installed@.len() == 0,
            r.extensions_dir == extensions_dir,
    {
        ExtensionRegistry { installed: Vec::new(), extensions_dir }
    }

    /// Whether an extension with id `id` is installed.
    pub fn is_installed(&self, id: &str) -> (b: bool)
        ensures
            b == has_extension(self.installed@, id@),
    {
        let want = str_chars(id);
        let mut i: usize = 0;
        while i < self.installed.len()
            invariant
                i <= self.installed@.len(),
                want@ == id@,
                forall|j: int| 0 <= j < i ==> (#[trigger] self.installed@[j]).manifest.extension.id@ != id@,
            decreases self.installed.len() - i,
        {
            if chars_eq(&str_chars(self.installed[i].manifest.extension.id.as_str()), &want) {
                return true;
            }
            i += 1;
        }
        false
    }
}

// ── Versions ─────────────────────────────────────────────────────────────────

/// Every character of `s` is an ASCII digit.
pub open spec fn all_digits(s: Seq<char>) -> bool {
    forall|i: int| 0 <= i < s.len() ==> '0' <= #[trigger] s[i] <= '9'
}

/// The number the ASCII digits `s` spell.
pub open spec fn digits_value(s: Seq<char>) -> int
    decreases s.len(),
{
    if s.len() == 0 {
        0
    } else {
        digits_value(s.drop_last()) * 10 + (s.last() as int - '0' as int)
    }
}

/// `s.parse::<u32>()`: an optional `+`, then at least one ASCII digit, the
/// value fitting a `u32`.
pub open spec fn parse_u32(s: Seq<char>) -> Option<u32> {
    let d = if s.len() > 0 && s[0] == '+' { s.drop_first() } else { s };
    if d.len() > 0 && all_digits(d) && digits_value(d) <= u32::MAX {
        Some(digits_value(d) as u32)
    } else {
        None
    }
}

/// The pieces `str::splitn(3, '.')` yields: up to the first dot, up to the
/// second dot, and the rest.
pub open spec fn split3(s: Seq<char>) -> Seq<Seq<char>> {
    match find_char(s, '.') {
        None => seq![s],
        Some(i) => {
            let rest = s.skip(i + 1);
            match find_char(rest, '.') {
                None => seq![s.take(i), rest],
                Some(j) => seq![s.take(i), rest.take(j), rest.skip(j + 1)],
            }
        },
    }
}

/// Component `k` of a version: the number piece `k` spells, 0 when it is
/// missing or is no number.
pub open spec fn version_part(parts: Seq<Seq<char>>, k: int) -> int {
    if 0 <= k < parts.len() {
        match parse_u32(parts[k]) {
            Some(v) => v as int,
            None => 0,
        }
    } else {
        0
    }
}

/// A version's (major, minor, patch), read from its trimmed text.
pub open spec fn version_key(v: Seq<char>) -> (int, int, int) {
    let p = split3(trim(v));
    (version_part(p, 0), version_part(p, 1), version_part(p, 2))
}

/// `a` is a strictly greater version than `b`, comparing (major, minor, patch)
/// in that order.
pub open spec fn version_greater(a: Seq<char>, b: Seq<char>) -> bool {
    let x = version_key(a);
    let y = version_key(b);
    x.0 > y.0 || (x.0 == y.0 && (x.1 > y.1 || (x.1 == y.1 && x.2 > y.2)))
}

pub proof fn lemma_digits_prefix(d: Seq<char>, k: int)
    requires
        all_digits(d),
        0 <= k <= d.len(),
    ensures
        0 <= digits_value(d.take(k)) <= digits_value(d),
    decreases d.len(),
{
    if d.len() > 0 {
        if k == d.len() {
            assert(d.take(k) =~= d);
            lemma_digits_prefix(d.drop_last(), d.len() - 1);
            assert(d.drop_last().take(d.len() - 1) =~= d.drop_last());
        } else {
            lemma_digits_prefix(d.drop_last(), k);
            assert(d.drop_last().take(k) =~= d.take(k));
            lemma_digits_prefix(d.drop_last(), d.len() - 1);
            assert(d.drop_last().take(d.len() - 1) =~= d.drop_last());
        }
    }
}

fn parse_u32_exec(s: &Vec<char>) -> (r: Option<u32>)
    ensures
        r == parse_u32(s@),
{
    let start: usize = if s.len() > 0 && s[0] == '+' {
        1
    } else {
        0
    };
    let d = slice_chars(s, start, s.len());
    proof {
        if s@.len() > 0 && s@[0] == '+' {
            assert(d@ =~= s@.drop_first());
        } else {
            assert(d@ =~= s@);
        }
    }
    if d.len() == 0 {
        return None;
    }
    let mut acc: u64 = 0;
    let mut i: usize = 0;
    proof {
        assert(d@.take(0) =~= seq![]);
    }
    while i < d.len()
        invariant
            i <= d.len(),
            d@ == (if s@.len() > 0 && s@[0] == '+' { s@.drop_first() } else { s@ }),
            d@.len() > 0,
            all_digits(d@.take(i as int)),
            acc == digits_value(d@.take(i as int)),
            acc <= u32::MAX,
        decreases d.len() - i,
    {
        let c = d[i];
        if !('0' <= c && c <= '9') {
            proof {
                assert(!all_digits(d@));
            }
            return None;
        }
        let digit = (c as u32 - '0' as u32) as u64;
        proof {
            assert(d@.take(i + 1).drop_last() =~= d@.take(i as int));
            assert(all_digits(d@.take(i + 1)));
        }
        let next = acc * 10 + digit;
        if next > 0xffff_ffff {
            proof {
                if all_digits(d@) {
                    lemma_digits_prefix(d@, i + 1);
                }
            }
            return None;
        }
        acc = next;
        i += 1;
    }
    proof {
        assert(d@.take(d@.len() as int) =~= d@);
    }
    Some(acc as u32)
}

fn split3_exec(s: &Vec<char>) -> (r: Vec<Vec<char>>)
    ensures
        crate::text::seqs_of(r@) == split3(s@),
{
    let mut r: Vec<Vec<char>> = Vec::new();
    match find_char_exec(s, '.') {
        None => {
            r.push(crate::text::copy_chars(s));
        },
        Some(i) => {
            let rest = slice_chars(s, i + 1, s.len());
            proof {
                assert(rest@ =~= s@.skip(i + 1));
            }
            r.push(slice_chars(s, 0, i));
            match find_char_exec(&rest, '.') {
                None => {
                    r.push(rest);
                },
                Some(j) => {
                    r.push(slice_chars(&rest, 0, j));
                    r.push(slice_chars(&rest, j + 1, rest.len()));
                    proof {
                        assert(rest@.subrange(j + 1, rest@.len() as int) =~= rest@.skip(j + 1));
                    }
                },
            }
        },
    }
    proof {
        assert(crate::text::seqs_of(r@) =~= split3(s@));
    }
    r
}

fn version_key_exec(v: &str) -> (k: (u32, u32, u32))
    ensures
        (k.0 as int, k.1 as int, k.2 as int) == version_key(v@),
{
    let parts = split3_exec(&trim_exec(&str_chars(v)));
    let a = if parts.len() > 0 {
        match parse_u32_exec(&parts[0]) {
            Some(x) => x,
            None => 0,
        }
    } else {
        0
    };
    let b = if parts.len() > 1 {
        match parse_u32_exec(&parts[1]) {
            Some(x) => x,
            None => 0,
        }
    } else {
        0
    };
    let c = if parts.len() > 2 {
        match parse_u32_exec(&parts[2]) {
            Some(x) => x,
            None => 0,
        }
    } else {
        0
    };
    (a, b, c)
}

/// Whether `a` is a strictly greater version than `b`.
pub fn version_gt(a: &str, b: &str) -> (r: bool)
    ensures
        r == version_greater(a@, b@),
{
    let x = version_key_exec(a);
    let y = version_key_exec(b);
    x.0 > y.0 || (x.0 == y.0 && (x.1 > y.1 || (x.1 == y.1 && x.2 > y.2)))
}

/// Version comparison is a strict order: no version is newer than itself,
/// of two versions at most one is newer, and newer-than chains.
pub proof fn lemma_version_order(a: Seq<char>, b: Seq<char>, c: Seq<char>)
    ensures
        !version_greater(a, a),
        version_greater(a, b) ==> !version_greater(b, a),
        version_greater(a, b) && version_greater(b, c) ==> version_greater(a, c),
{
}

/// Where the manifest an installed extension came from lies, as the path
/// components under which `manifest.toml` is found: the workspace and its
/// member, or the folder. A git or zip source has no local copy to compare.
pub open spec fn update_dir(source: ExtensionSource) -> Option<Seq<Seq<char>>> {
    match source.kind {
        SourceKind::Workspace => match (source.path, source.member) {
            (Some(p), Some(m)) => Some(seq![p@, m@]),
            _ => None,
        },
        SourceKind::Folder => match source.path {
            Some(p) => Some(seq![p@]),
            None => None,
        },
        _ => None,
    }
}

/// Where to look for an extension's newer manifest (see `update_dir`).
pub fn update_check_dir(source: &ExtensionSource) -> (r: Option<Vec<String>>)
    ensures
        match r {
            Some(v) => update_dir(*source) == Some(crate::text::texts(v@)),
            None => update_dir(*source) is None,
        },
{
    match source.kind {
        SourceKind::Workspace => match (&source.path, &source.member) {
            (Some(p), Some(m)) => {
                let v = vec![p.clone(), m.clone()];
                proof {
                    assert(crate::text::texts(v@) =~= seq![p@, m@]);
                }
                Some(v)
            },
            _ => None,
        },
        SourceKind::Folder => match &source.path {
            Some(p) => {
                let v = vec![p.clone()];
                proof {
                    assert(crate::text::texts(v@) =~= seq![p@]);
                }
                Some(v)
            },
            None => None,
        },
        _ => None,
    }
}

/// The update an extension at `current` shows when its source has the
/// version `found`: that version when it is newer, else none.
pub open spec fn update_for(found: Option<String>, current: Seq<char>) -> Option<Seq<char>> {
    match found {
        Some(v) => if version_greater(v@, current) {
            Some(v@)
        } else {
            None
        },
        None => None,
    }
}

/// The text of an optional string.
pub open spec fn opt_text(o: Option<String>) -> Option<Seq<char>> {
    match o {
        Some(s) => Some(s@),
        None => None,
    }
}

fn newer_version(found: &Option<String>, current: &String) -> (r: Option<String>)
    ensures
        opt_text(r) == update_for(*found, current@),
{
    match found {
        Some(v) => if version_gt(v.as_str(), current.as_str()) {
            Some(v.clone())
        } else {
            None
        },
        None => None,
    }
}

impl ExtensionRegistry {
    /// Records available updates: `found[i]` is the version of the source
    /// manifest of the `i`-th installed extension, where one could be read.
    /// Each extension then offers that version exactly when it is newer than
    /// its own; nothing else changes.
    pub fn check_updates(&mut self, found: &Vec<Option<String>>)
        requires
            found@.len() == old(self).installed@.len(),
        ensures
            final(self).installed@.len() == old(self).installed@.len(),
            final(self).extensions_dir == old(self).extensions_dir,
            forall|i: int| 0 <= i < final(self).installed@.len() ==> {
                &&& opt_text((#[trigger] final(self).installed@[i]).update_available) == update_for(
                    found@[i],
                    old(self).installed@[i].manifest.extension.version@,
                )
                &&& final(self).installed@[i] == (InstalledExtension {
                    update_available: final(self).installed@[i].update_available,
                    ..old(self).installed@[i]
                })
            },
    {
        let ghost orig = self.installed@;
        let total = self.installed.len();
        let mut rest: Vec<InstalledExtension> = Vec::new();
        std::mem::swap(&mut rest, &mut self.installed);
        let mut out: Vec<InstalledExtension> = Vec::new();
        let mut i: usize = 0;
        proof {
            assert(orig.skip(0) =~= orig);
        }
        while rest.len() > 0
            invariant
                found@.len() == orig.len(),
                orig.len() == total,
                orig == old(self).installed@,
                rest@ == orig.skip(i as int),
                out@.len() == i,
                i <= orig.len(),
                self.extensions_dir == old(self).extensions_dir,
                forall|k: int| 0 <= k < i ==> {
                    &&& opt_text((#[trigger] out@[k]).update_available) == update_for(
                        found@[k],
                        orig[k].manifest.extension.version@,
                    )
                    &&& out@[k] == (InstalledExtension { update_available: out@[k].update_available, ..orig[k] })
                },
            decreases rest.len(),
        {
            let mut ext = rest.remove(0);
            proof {
                assert(i < orig.len());
                assert(ext == orig[i as int]);
                assert(rest@ =~= orig.skip(i + 1));
            }
            ext.update_available = newer_version(&found[i], &ext.manifest.extension.version);
            out.push(ext);
            i += 1;
        }
        self.installed = out;
    }

    /// Removes the first installed extension with id `id`; returns its
    /// directory, to be deleted, when there was one.
    pub fn uninstall(&mut self, id: &str) -> (r: Option<String>)
        ensures
            final(self).extensions_dir == old(self).extensions_dir,
            match r {
                Some(path) => exists|k: int| {
                    &&& 0 <= k < old(self).installed@.len()
                    &&& #[trigger] old(self).installed@[k].manifest.extension.id@ == id@
                    &&& forall|j: int| 0 <= j < k ==> old(self).installed@[j].manifest.extension.id@ != id@
                    &&& path@ == old(self).installed@[k].path@
                    &&& final(self).installed@ == old(self).installed@.remove(k)
                },
                None => !has_extension(old(self).installed@, id@) && final(self).installed == old(self).installed,
            },
    {
        let want = str_chars(id);
        let mut i: usize = 0;
        while i < self.installed.len()
            invariant
                i <= self.installed@.len(),
                want@ == id@,
                self.installed == old(self).installed,
                self.extensions_dir == old(self).extensions_dir,
                forall|j: int| 0 <= j < i ==> (#[trigger] self.installed@[j]).manifest.extension.id@ != id@,
            decreases self.installed.len() - i,
        {
            if chars_eq(&str_chars(self.installed[i].manifest.extension.id.as_str()), &want) {
                let ext = self.installed.remove(i);
                return Some(ext.path);
            }
            i += 1;
        }
        None
    }
}

} // verus!
