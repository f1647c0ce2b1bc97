//! Mount configuration and the option-setting rules.
//!
//! A mount stacks an EROFS image (the commit's tree) under an overlayfs
//! that pulls file contents from the shared object directory, optionally
//! with a writable upper directory.  The kernel calls themselves are the
//! binary's job; this module holds the configuration data and the decision
//! rules the call sequence follows: which string options to set, and how
//! to fall back when the kernel rejects a file-descriptor option.

use vstd::prelude::*;

use crate::refs::str_eq;

verus! {

/// Configuration of one composefs mount.  The image itself is carried
/// separately as an open file by the binary.
#[derive(Debug, Clone)]
pub struct ComposeFsConfig {
    /// The name the mount is identified by.
    pub name: String,
    /// A custom `source=` string for the mount table, if any.
    pub source_name: Option<String>,
    /// The object directory backing file contents, if any.
    pub basedir: Option<String>,
    /// The writable upper directory; its presence makes the mount writable.
    pub upperdir: Option<String>,
    /// The overlayfs scratch directory; must accompany an upper directory.
    pub workdir: Option<String>,
    /// Whether fs-verity checking is demanded.
    pub verity_required: bool,
    /// Whether overlayfs metacopy is enabled.
    pub metacopy: bool,
    /// Whether overlayfs redirect_dir is enabled.
    pub redirect_dir: bool,
}

impl ComposeFsConfig {
    /// A read-only snapshot configuration.
    pub fn read_only(name: String) -> (r: ComposeFsConfig)
        ensures
            r.name == name,
            r.source_name is None,
            r.basedir is None,
            r.upperdir is None,
            r.workdir is None,
            r.verity_required,
            r.metacopy,
            r.redirect_dir,
    {
        ComposeFsConfig {
            name,
            source_name: None,
            basedir: None,
            upperdir: None,
            workdir: None,
            verity_required: true,
            metacopy: true,
            redirect_dir: true,
        }
    }

    /// A writable configuration with an upper directory.
    pub fn writable(name: String, upperdir: String, workdir: Option<String>) -> (r:
        ComposeFsConfig)
        ensures
            r.name == name,
            r.source_name is None,
            r.basedir is None,
            r.upperdir == Some(upperdir),
            r.workdir == workdir,
            r.verity_required,
            r.metacopy,
            r.redirect_dir,
    {
        ComposeFsConfig {
            name,
            source_name: None,
            basedir: None,
            upperdir: Some(upperdir),
            workdir,
            verity_required: true,
            metacopy: true,
            redirect_dir: true,
        }
    }

    /// Sets the object directory.
    pub fn with_basedir(self, basedir: String) -> (r: ComposeFsConfig)
        ensures
            r == (ComposeFsConfig { basedir: Some(basedir), ..self }),
    {
        ComposeFsConfig { basedir: Some(basedir), ..self }
    }

    /// Sets the `source=` string.
    pub fn with_source_name(self, source_name: String) -> (r: ComposeFsConfig)
        ensures
            r == (ComposeFsConfig { source_name: Some(source_name), ..self }),
    {
        ComposeFsConfig { source_name: Some(source_name), ..self }
    }

    /// Sets the fs-verity requirement.
    pub fn with_verity(self, required: bool) -> (r: ComposeFsConfig)
        ensures
            r == (ComposeFsConfig { verity_required: required, ..self }),
    {
        ComposeFsConfig { verity_required: required, ..self }
    }

    /// Sets the metacopy option.
    pub fn with_metacopy(self, enabled: bool) -> (r: ComposeFsConfig)
        ensures
            r == (ComposeFsConfig { metacopy: enabled, ..self }),
    {
        ComposeFsConfig { metacopy: enabled, ..self }
    }

    /// Sets the redirect_dir option.
    pub fn with_redirect_dir(self, enabled: bool) -> (r: ComposeFsConfig)
        ensures
            r == (ComposeFsConfig { redirect_dir: enabled, ..self }),
    {
        ComposeFsConfig { redirect_dir: enabled, ..self }
    }

    /// Whether this configuration mounts writable.
    pub fn is_writable(&self) -> (r: bool)
        ensures
            r == (self.upperdir is Some),
    {
        self.upperdir.is_some()
    }
}

/// How an overlayfs option that takes a file descriptor is being set:
/// directly, with the descriptor reopened read-only, or as a
/// `/proc/self/fd` path string.
#[derive(Debug, Clone, Copy, PartialEq, Eq, Structural)]
pub enum FdOptionAttempt {
    Direct,
    Reopened,
    StringPath,
}

/// What to do after one attempt at setting a descriptor option.
#[derive(Debug, Clone, Copy, PartialEq, Eq, Structural)]
pub enum FdOptionStep {
    /// Try again in this mode.
    Retry(FdOptionAttempt),
    /// Give up: the kernel does not support the option.
    GiveUp,
}

/// Whether a descriptor option may fall back to a path string: the upper
/// and work directories need persistent paths and never may.
pub open spec fn allows_path_fallback(key: Seq<char>) -> bool {
    key != "upperdir+"@ && key != "workdir+"@
}

/// The fallback ladder for descriptor options: a direct attempt rejected
/// with an invalid-argument error is retried with a reopened descriptor,
/// then as a path string where permitted; any other rejection, and
/// exhaustion of the ladder, gives up.
pub fn next_fd_attempt(key: &str, attempt: FdOptionAttempt, rejected_as_invalid: bool) -> (r:
    FdOptionStep)
    ensures
        !rejected_as_invalid ==> r is GiveUp,
        rejected_as_invalid && attempt is Direct ==> r == FdOptionStep::Retry(
            FdOptionAttempt::Reopened,
        ),
        rejected_as_invalid && attempt is Reopened ==> (if allows_path_fallback(key@) {
            r == FdOptionStep::Retry(FdOptionAttempt::StringPath)
        } else {
            r is GiveUp
        }),
        rejected_as_invalid && attempt is StringPath ==> r is GiveUp,
{
    if !rejected_as_invalid {
        return FdOptionStep::GiveUp;
    }
    match attempt {
        FdOptionAttempt::Direct => FdOptionStep::Retry(FdOptionAttempt::Reopened),
        FdOptionAttempt::Reopened => {
            if str_eq(key, "upperdir+") || str_eq(key, "workdir+") {
                FdOptionStep::GiveUp
            } else {
                FdOptionStep::Retry(FdOptionAttempt::StringPath)
            }
        },
        FdOptionAttempt::StringPath => FdOptionStep::GiveUp,
    }
}

/// The option key used for the path-string fallback: the trailing plus of
/// the descriptor form is dropped.
pub fn fallback_key(key: &str) -> (r: String)
    ensures
        ({
            let n = key@.len();
            if n > 0 && key@.last() == '+' {
                r@ == key@.subrange(0, n - 1)
            } else {
                r@ == key@
            }
        }),
{
    let n = key.unicode_len();
    if n > 0 && key.get_char(n - 1) == '+' {
        String::from_str(key.substring_char(0, n - 1))
    } else {
        String::from_str(key)
    }
}

/// The string options an overlayfs mount is configured with, in order:
/// the `source=` name (the configured one, or `composefs-<name>`), then
/// `metacopy=on` and `redirect_dir=on` where enabled, then the upper and
/// work directories where set.
pub open spec fn overlay_options_of(c: ComposeFsConfig) -> Seq<(Seq<char>, Seq<char>)> {
    seq![
        (
            "source"@,
            match c.source_name {
                Some(s) => s@,
                None => "composefs-"@ + c.name@,
            },
        ),
    ] + (if c.metacopy {
        seq![("metacopy"@, "on"@)]
    } else {
        Seq::<(Seq<char>, Seq<char>)>::empty()
    }) + (if c.redirect_dir {
        seq![("redirect_dir"@, "on"@)]
    } else {
        Seq::<(Seq<char>, Seq<char>)>::empty()
    }) + (match c.upperdir {
        Some(u) => seq![("upperdir"@, u@)],
        None => Seq::<(Seq<char>, Seq<char>)>::empty(),
    }) + (match c.workdir {
        Some(w) => seq![("workdir"@, w@)],
        None => Seq::<(Seq<char>, Seq<char>)>::empty(),
    })
}

/// The view of an option list.
pub open spec fn options_view(v: Seq<(String, String)>) -> Seq<(Seq<char>, Seq<char>)> {
    Seq::new(v.len(), |i: int| (v[i].0@, v[i].1@))
}

/// Builds the overlayfs string options for a configuration.
pub fn overlay_string_options(config: &ComposeFsConfig) -> (r: Vec<(String, String)>)
    ensures
        options_view(r@) == overlay_options_of(*config),
{
    let mut out: Vec<(String, String)> = Vec::new();
    let source = match &config.source_name {
        Some(s) => s.clone(),
        None => String::from_str("composefs-").concat(config.name.as_str()),
    };
    out.push((String::from_str("source"), source));
    if config.metacopy {
        out.push((String::from_str("metacopy"), String::from_str("on")));
    }
    if config.redirect_dir {
        out.push((String::from_str("redirect_dir"), String::from_str("on")));
    }
    match &config.upperdir {
        Some(u) => {
            out.push((String::from_str("upperdir"), u.clone()));
        },
        None => {},
    }
    match &config.workdir {
        Some(w) => {
            out.push((String::from_str("workdir"), w.clone()));
        },
        None => {},
    }
    proof {
        assert(options_view(out@) =~= overlay_options_of(*config));
    }
    out
}

/// Whether a character separates fields in the system's mount table.
pub open spec fn is_field_space(c: char) -> bool {
    c == ' ' || c == '\t'
}

/// The first separator position at or after `i`, or the length when the
/// rest of the line is one field.
pub open spec fn first_space_from(s: Seq<char>, i: int) -> int
    recommends
        0 <= i,
    decreases s.len() - i,
{
    if i < 0 || i >= s.len() {
        s.len() as int
    } else if is_field_space(s[i]) {
        i
    } else {
        first_space_from(s, i + 1)
    }
}

/// The first non-separator position at or after `i`, or the length.
pub open spec fn first_nonspace_from(s: Seq<char>, i: int) -> int
    recommends
        0 <= i,
    decreases s.len() - i,
{
    if i < 0 || i >= s.len() {
        s.len() as int
    } else if !is_field_space(s[i]) {
        i
    } else {
        first_nonspace_from(s, i + 1)
    }
}

/// The second whitespace-separated field of a mount-table line: in
/// `/proc/mounts`, the mount point.
pub open spec fn second_field_of(s: Seq<char>) -> Option<Seq<char>> {
    let a = first_nonspace_from(s, 0);
    let b = first_space_from(s, a);
    let c = first_nonspace_from(s, b);
    if c >= s.len() {
        Option::None
    } else {
        Option::Some(s.subrange(c, first_space_from(s, c)))
    }
}

proof fn lemma_space_scan_bounds(s: Seq<char>, i: int)
    requires
        0 <= i <= s.len(),
    ensures
        i <= first_space_from(s, i) <= s.len(),
        i <= first_nonspace_from(s, i) <= s.len(),
        first_space_from(s, i) < s.len() ==> is_field_space(s[first_space_from(s, i)]),
        first_nonspace_from(s, i) < s.len() ==> !is_field_space(s[first_nonspace_from(s, i)]),
    decreases s.len() - i,
{
    if i < s.len() {
        lemma_space_scan_bounds(s, i + 1);
    }
}

fn scan_space(line: &str, start: usize, want_space: bool) -> (r: usize)
    requires
        start <= line@.len(),
    ensures
        want_space ==> r as int == first_space_from(line@, start as int),
        !want_space ==> r as int == first_nonspace_from(line@, start as int),
        start <= r <= line@.len(),
    decreases line@.len() - start,
{
    let n = line.unicode_len();
    let mut i: usize = start;
    while i < n
        invariant
            start <= i <= n,
            n == line@.len(),
            want_space ==> first_space_from(line@, start as int) == first_space_from(
                line@,
                i as int,
            ),
            !want_space ==> first_nonspace_from(line@, start as int) == first_nonspace_from(
                line@,
                i as int,
            ),
        decreases n - i,
    {
        let c = line.get_char(i);
        let hit = c == ' ' || c == '\t';
        if hit == want_space {
            return i;
        }
        i += 1;
    }
    n
}

/// Extracts the mount point from one line of the system mount table: its
/// second whitespace-separated field.
pub fn mount_point_of_line(line: &str) -> (r: Option<String>)
    ensures
        match r {
            Some(p) => second_field_of(line@) == Option::Some(p@),
            None => second_field_of(line@) is None,
        },
{
    let a = scan_space(line, 0, false);
    let b = scan_space(line, a, true);
    let c = scan_space(line, b, false);
    let n = line.unicode_len();
    if c >= n {
        return None;
    }
    let d = scan_space(line, c, true);
    proof {
        lemma_space_scan_bounds(line@, c as int);
    }
    Some(String::from_str(line.substring_char(c, d)))
}

/// Whether one mount-table line records a mount at `path`.
pub fn mount_line_names(line: &str, path: &str) -> (r: bool)
    ensures
        r == (second_field_of(line@) == Option::Some(path@)),
{
    match mount_point_of_line(line) {
        Some(p) => crate::refs::str_eq(p.as_str(), path),
        None => false,
    }
}

/// A store for content blobs addressed by digest.
pub struct DigestStore {
    /// Path of the object directory.
    pub path: String,
}

impl DigestStore {
    /// A digest store over the given directory.
    pub fn new(path: String) -> (r: DigestStore)
        ensures
            r.path == path,
    {
        DigestStore { path }
    }
}

/// A mount that lives only as long as its handle.
pub trait EphemeralMount {
    /// The path the mount sits on.
    fn get_mountpoint(&self) -> &String;
}

/// A temporary overlayfs mount over a set of lower directories, used to
/// stage a composed view while building a commit.  The listed lower
/// directories are stacked in reverse order: the last entry becomes the
/// topmost layer.
pub struct TempOvlMount {
    /// Where the overlay is mounted.
    pub mountpoint: String,
    /// Lower directories, topmost last.
    pub lowerdirs: Vec<String>,
    /// The writable upper directory.
    pub upperdir: String,
    /// The overlayfs scratch directory, if chosen by the caller.
    pub workdir: Option<String>,
}

/// Parts joined with colons.
pub open spec fn colon_join(parts: Seq<Seq<char>>) -> Seq<char>
    decreases parts.len(),
{
    if parts.len() == 0 {
        Seq::<char>::empty()
    } else if parts.len() == 1 {
        parts.first()
    } else {
        parts.first() + ":"@ + colon_join(parts.drop_first())
    }
}

/// The views of a string list, in reverse order.
pub open spec fn reversed_views(v: Seq<String>) -> Seq<Seq<char>> {
    Seq::new(v.len(), |i: int| v[v.len() - 1 - i]@)
}

impl TempOvlMount {
    /// A temporary overlay over the given directories.
    pub fn new(
        mountpoint: String,
        lowerdirs: Vec<String>,
        upperdir: String,
        workdir: Option<String>,
    ) -> (r: TempOvlMount)
        ensures
            r.mountpoint == mountpoint,
            r.lowerdirs == lowerdirs,
            r.upperdir == upperdir,
            r.workdir == workdir,
    {
        TempOvlMount { mountpoint, lowerdirs, upperdir, workdir }
    }

    /// The `lowerdir=` option value: the lower directories joined with
    /// colons, last entry first, so that it becomes the topmost layer.
    pub fn lowerdir_option(&self) -> (r: String)
        ensures
            r@ == colon_join(reversed_views(self.lowerdirs@)),
    {
        let mut out = String::new();
        let n = self.lowerdirs.len();
        let mut i: usize = 0;
        while i < n
            invariant
                0 <= i <= n,
                n == self.lowerdirs@.len(),
                out@ == colon_join(reversed_views(self.lowerdirs@).take(i as int)),
        decreases n - i,
        {
            let ghost done = reversed_views(self.lowerdirs@).take(i as int);
            let part = &self.lowerdirs[n - 1 - i];
            if i > 0 {
                out.append(":");
            }
            out.append(part.as_str());
            proof {
                let now = reversed_views(self.lowerdirs@).take(i as int + 1);
                lemma_colon_join_snoc(reversed_views(self.lowerdirs@), i as int);
                assert(now.len() == i + 1);
                assert(reversed_views(self.lowerdirs@)[i as int] == part@);
            }
            i += 1;
        }
        proof {
            assert(reversed_views(self.lowerdirs@).take(n as int) =~= reversed_views(
                self.lowerdirs@,
            ));
        }
        out
    }
}

impl EphemeralMount for TempOvlMount {
    fn get_mountpoint(&self) -> &String {
        &self.mountpoint
    }
}

proof fn lemma_colon_join_snoc(parts: Seq<Seq<char>>, i: int)
    requires
        0 <= i < parts.len(),
    ensures
        colon_join(parts.take(i + 1)) == (if i == 0 {
            parts[0]
        } else {
            colon_join(parts.take(i)) + ":"@ + parts[i]
        }),
    decreases i,
{
    if i == 0 {
        assert(parts.take(1).len() == 1);
        assert(parts.take(1).first() == parts[0]);
    } else {
        let a = parts.take(i + 1);
        assert(a.len() >= 2);
        assert(a.first() == parts[0]);
        assert(a.drop_first() =~= parts.drop_first().take(i));
        lemma_colon_join_snoc(parts.drop_first(), i - 1);
        assert(parts.take(i).first() == parts[0]);
        assert(parts.take(i).drop_first() =~= parts.drop_first().take(i - 1));
        if i == 1 {
            assert(colon_join(parts.take(1)) == parts[0]);
            assert(parts.drop_first().take(1).len() == 1);
            assert(colon_join(parts.drop_first().take(1)) == parts.drop_first()[0]);
            assert(parts.drop_first()[0] == parts[1]);
        } else {
            assert(colon_join(parts.take(i)) == parts[0] + ":"@ + colon_join(
                parts.drop_first().take(i - 1),
            ));
        }
        assert(parts.drop_first()[i - 1] == parts[i]);
    }
}

} // verus!
