//! Destination safety: which paths a download may be written to.
//!
//! Paths are strings with `/` as the separator. The checks on the text come
//! first; what the filesystem says about the resolved path is handed in as a
//! [`PathProbe`], so that the rule itself touches no disk.

use crate::downloader::AssetDownloader;
use crate::error::{text_result_view, unit_result_view, AssetError, AssetErrorView};
use crate::text::{
    contains_str, find_char, find_chars, has_prefix, matches_at, to_chars, trim, trim_bounds,
};
use vstd::prelude::*;
use vstd::string::StringExecFns;

verus! {

/// What the filesystem says about a resolved destination.
pub enum PathProbe {
    /// The destination exists; its canonical form is attached.
    Resolved(String),
    /// The destination does not exist, its parent directory does; the
    /// parent's canonical form is attached.
    ParentResolved(String),
    /// The destination does not exist, and its existing parent directory
    /// could not be canonicalized; the cause is attached.
    ParentUnresolved(String),
    /// Neither the destination nor a parent directory of it exists.
    Missing,
}

/// `PathProbe` with its texts as character sequences.
pub enum PathProbeView {
    Resolved(Seq<char>),
    ParentResolved(Seq<char>),
    ParentUnresolved(Seq<char>),
    Missing,
}

impl View for PathProbe {
    type V = PathProbeView;

    open spec fn view(&self) -> PathProbeView {
        match self {
            PathProbe::Resolved(canonical) => PathProbeView::Resolved(canonical@),
            PathProbe::ParentResolved(canonical) => PathProbeView::ParentResolved(canonical@),
            PathProbe::ParentUnresolved(cause) => PathProbeView::ParentUnresolved(cause@),
            PathProbe::Missing => PathProbeView::Missing,
        }
    }
}

/// A path is absolute where it starts at the root.
pub open spec fn is_absolute(path: Seq<char>) -> bool {
    path.len() > 0 && path[0] == '/'
}

/// The destination holds two dots in a row, anywhere.
pub open spec fn has_traversal(destination: Seq<char>) -> bool {
    contains_str(destination, ".."@)
}

/// The destination is absolute and its text begins with the name of a system
/// directory. The comparison is on the text alone: `/etcetera` counts.
pub open spec fn targets_system_directory(destination: Seq<char>) -> bool {
    is_absolute(destination) && {
        ||| "/etc"@.is_prefix_of(destination)
        ||| "/usr"@.is_prefix_of(destination)
        ||| "/var"@.is_prefix_of(destination)
        ||| "/sys"@.is_prefix_of(destination)
        ||| "/proc"@.is_prefix_of(destination)
        ||| "/root"@.is_prefix_of(destination)
        ||| "/boot"@.is_prefix_of(destination)
    }
}

/// `rel` seen from `base`: an absolute `rel` stands for itself, any other is
/// appended to `base`, with a separator where `base` does not end in one.
pub open spec fn join_path(base: Seq<char>, rel: Seq<char>) -> Seq<char> {
    if is_absolute(rel) {
        rel
    } else if base.len() > 0 && base.last() != '/' {
        base + seq!['/'] + rel
    } else {
        base + rel
    }
}

/// The pieces of `path` between its separators. There is always at least
/// one; a piece is empty where two separators meet or the path begins or ends
/// with one.
pub open spec fn segments(path: Seq<char>) -> Seq<Seq<char>>
    decreases path.len(),
{
    if path.len() == 0 {
        seq![Seq::<char>::empty()]
    } else {
        let before = segments(path.drop_last());
        if path.last() == '/' {
            before.push(Seq::<char>::empty())
        } else {
            before.drop_last().push(before.last().push(path.last()))
        }
    }
}

/// A segment names something: it is neither empty nor a single dot.
pub open spec fn is_name(segment: Seq<char>) -> bool {
    segment.len() > 0 && segment != seq!['.']
}

/// The segments that name something, in order.
pub open spec fn names(segs: Seq<Seq<char>>) -> Seq<Seq<char>>
    decreases segs.len(),
{
    if segs.len() == 0 {
        segs
    } else if is_name(segs.last()) {
        names(segs.drop_last()).push(segs.last())
    } else {
        names(segs.drop_last())
    }
}

/// How a path begins: with the root (written as the empty component), with
/// the current directory (written `.`), or with neither.
pub open spec fn leading_component(path: Seq<char>) -> Seq<Seq<char>> {
    if is_absolute(path) {
        seq![Seq::<char>::empty()]
    } else if segments(path).first() == seq!['.'] {
        seq![seq!['.']]
    } else {
        Seq::<Seq<char>>::empty()
    }
}

/// The components of a path: how it begins, then the names in it. Repeated
/// separators, a trailing separator and single dots inside the path do not
/// count.
pub open spec fn components(path: Seq<char>) -> Seq<Seq<char>> {
    leading_component(path) + names(segments(path))
}

/// `path` is `base` or lies below it, component by component.
pub open spec fn is_within(path: Seq<char>, base: Seq<char>) -> bool {
    components(base).is_prefix_of(components(path))
}

/// The file name of a path: its last name, unless that is `..`.
pub open spec fn file_name(path: Seq<char>) -> Option<Seq<char>> {
    let all = names(segments(path));
    if all.len() > 0 && all.last() != seq!['.', '.'] {
        Some(all.last())
    } else {
        None
    }
}

/// The path has a file name that is blank or holds a NUL character.
pub open spec fn has_bad_file_name(path: Seq<char>) -> bool {
    match file_name(path) {
        Some(name) => name.contains('\0') || trim(name).len() == 0,
        None => false,
    }
}

/// The canonical form that a probe found lies outside the working directory.
pub open spec fn escapes(working_dir: Seq<char>, probe: PathProbeView) -> bool {
    match probe {
        PathProbeView::Resolved(canonical) => !is_within(canonical, working_dir),
        PathProbeView::ParentResolved(canonical) => !is_within(canonical, working_dir),
        PathProbeView::ParentUnresolved(_) => false,
        PathProbeView::Missing => false,
    }
}

/// The checks that need nothing but the destination's text.
pub open spec fn text_verdict(destination: Seq<char>) -> Result<(), AssetErrorView> {
    if has_traversal(destination) {
        Err(AssetErrorView::PathTraversal)
    } else if targets_system_directory(destination) {
        Err(AssetErrorView::SystemDirectoryDenied)
    } else {
        Ok(())
    }
}

/// The whole rule, in the order in which the checks are made: the first one
/// that fails names the error. Containment is asked of relative destinations
/// only. An accepted destination comes back resolved against the working
/// directory.
pub open spec fn destination_verdict(
    destination: Seq<char>,
    working_dir: Seq<char>,
    probe: PathProbeView,
) -> Result<Seq<char>, AssetErrorView> {
    match text_verdict(destination) {
        Err(e) => Err(e),
        Ok(_) => {
            if !is_absolute(destination) && escapes(working_dir, probe) {
                Err(AssetErrorView::OutsideWorkingDirectory)
            } else if !is_absolute(destination) && probe is ParentUnresolved {
                Err(AssetErrorView::IoError(probe->ParentUnresolved_0))
            } else if has_bad_file_name(destination) {
                Err(AssetErrorView::InvalidFilename)
            } else {
                Ok(join_path(working_dir, destination))
            }
        },
    }
}

/// What holds of every accepted destination: its text holds no `..` and,
/// where it is absolute, does not begin with the name of a system directory;
/// it has no blank file name; where it is relative, no canonical form that
/// the probe found lies outside the working directory; and the path that
/// comes back is the destination seen from the working directory.
pub proof fn lemma_accepted_destination(
    destination: Seq<char>,
    working_dir: Seq<char>,
    probe: PathProbeView,
)
    requires
        destination_verdict(destination, working_dir, probe) is Ok,
    ensures
        !has_traversal(destination),
        !targets_system_directory(destination),
        !has_bad_file_name(destination),
        !is_absolute(destination) ==> !escapes(working_dir, probe),
        destination_verdict(destination, working_dir, probe) == Ok::<Seq<char>, AssetErrorView>(
            join_path(working_dir, destination),
        ),
        is_absolute(destination) ==> join_path(working_dir, destination) == destination,
{
}

/// Every destination with `..` in it is refused as a traversal, and every
/// absolute destination into a system directory that holds no `..` is
/// refused as such, whatever the filesystem says.
pub proof fn lemma_text_checks_come_first(
    destination: Seq<char>,
    working_dir: Seq<char>,
    probe: PathProbeView,
)
    ensures
        has_traversal(destination) ==> destination_verdict(destination, working_dir, probe) == Err::<
            Seq<char>,
            AssetErrorView,
        >(AssetErrorView::PathTraversal),
        !has_traversal(destination) && targets_system_directory(destination)
            ==> destination_verdict(destination, working_dir, probe) == Err::<
            Seq<char>,
            AssetErrorView,
        >(AssetErrorView::SystemDirectoryDenied),
{
}

/// The views of a list of character vectors.
pub open spec fn views(parts: Seq<Vec<char>>) -> Seq<Seq<char>> {
    Seq::new(parts.len(), |i: int| parts[i]@)
}

/// The first segment of a path is what stands before its first separator.
pub proof fn lemma_first_segment(path: Seq<char>)
    ensures
        segments(path).len() > 0,
        segments(path).first() == crate::text::before_char(path, '/'),
    decreases path.len(),
{
    path.index_of_first_ensures('/');
    if path.len() > 0 {
        let front = path.drop_last();
        lemma_first_segment(front);
        front.index_of_first_ensures('/');
        assert(front.push(path.last()) =~= path);
        match front.index_of_first('/') {
            Some(i) => {
                assert forall|j: int| 0 <= j < i implies path[j] != '/' by {
                    assert(front[j] == path[j]);
                }
                crate::text::lemma_index_of_first_unique(path, '/', i);
                assert(path.take(i) =~= front.take(i));
                lemma_segments_count(front, i);
            },
            None => {
                assert forall|j: int| 0 <= j < front.len() implies path[j] != '/' by {
                    assert(front[j] == path[j]);
                    assert(front.contains(front[j]));
                }
                lemma_segments_single(front);
                if path.last() == '/' {
                    crate::text::lemma_index_of_first_unique(path, '/', path.len() - 1);
                    assert(path.take(path.len() - 1) =~= front);
                } else {
                    crate::text::lemma_index_of_absent(path, '/');
                }
            },
        }
    }
}

/// A path with a separator has more than one segment.
proof fn lemma_segments_count(path: Seq<char>, i: int)
    requires
        0 <= i < path.len(),
        path[i] == '/',
    ensures
        segments(path).len() > 1,
    decreases path.len(),
{
    lemma_first_segment_nonempty(path.drop_last());
    if i == path.len() - 1 {
    } else {
        lemma_segments_count(path.drop_last(), i);
    }
}

proof fn lemma_first_segment_nonempty(path: Seq<char>)
    ensures
        segments(path).len() > 0,
    decreases path.len(),
{
    if path.len() > 0 {
        lemma_first_segment_nonempty(path.drop_last());
    }
}

/// A path without a separator is its own single segment.
proof fn lemma_segments_single(path: Seq<char>)
    requires
        forall|j: int| 0 <= j < path.len() ==> path[j] != '/',
    ensures
        segments(path) == seq![path],
    decreases path.len(),
{
    if path.len() == 0 {
        assert(path =~= Seq::<char>::empty());
    } else {
        lemma_segments_single(path.drop_last());
        assert(path.drop_last().push(path.last()) =~= path);
        assert(seq![path.drop_last()].drop_last().push(path) =~= seq![path]);
    }
}

/// Whether `path` is absolute.
pub fn is_absolute_path(path: &str) -> (absolute: bool)
    ensures
        absolute == is_absolute(path@),
{
    let v = to_chars(path);
    v.len() > 0 && v[0] == '/'
}

/// `rel` seen from `base`.
pub fn join_paths(base: &str, rel: &str) -> (joined: String)
    ensures
        joined@ == join_path(base@, rel@),
{
    if is_absolute_path(rel) {
        return String::from_str(rel);
    }
    let b = to_chars(base);
    let joined = String::from_str(base);
    if b.len() > 0 && b[b.len() - 1] != '/' {
        proof {
            reveal_strlit("/");
            assert("/"@ =~= seq!['/']);
        }
        joined.concat("/").concat(rel)
    } else {
        joined.concat(rel)
    }
}

fn segment_is_name(segment: &Vec<char>) -> (named: bool)
    ensures
        named == is_name(segment@),
{
    if segment.len() == 0 {
        false
    } else if segment.len() == 1 && segment[0] == '.' {
        assert(segment@ =~= seq!['.']);
        false
    } else {
        assert(segment@ != seq!['.']) by {
            if segment@.len() == 1 {
                assert(segment@[0] != seq!['.'][0]);
            }
        }
        true
    }
}

/// Appends the names in `path` to `out`.
fn collect_names(path: &[char], out: Vec<Vec<char>>) -> (all: Vec<Vec<char>>)
    ensures
        views(all@) == views(out@) + names(segments(path@)),
{
    let ghost start = views(out@);
    let mut all = out;
    let mut current: Vec<char> = Vec::new();
    let n: usize = path.len();
    let mut i: usize = 0;
    assert(path@.take(0) =~= Seq::<char>::empty());
    assert(seq![Seq::<char>::empty()].drop_last() =~= Seq::<Seq<char>>::empty());
    assert(views(all@) =~= start + names(segments(path@.take(0)).drop_last()));
    while i < n
        invariant
            n == path@.len(),
            i <= n,
            segments(path@.take(i as int)).len() > 0,
            current@ == segments(path@.take(i as int)).last(),
            views(all@) == start + names(segments(path@.take(i as int)).drop_last()),
        decreases n - i,
    {
        let c = path[i];
        let ghost seen = segments(path@.take(i as int));
        proof {
            assert(path@.take(i + 1).drop_last() =~= path@.take(i as int));
            assert(path@.take(i + 1).last() == c);
        }
        if c == '/' {
            let ghost before = views(all@);
            proof {
                assert(seen.push(Seq::<char>::empty()).drop_last() =~= seen);
            }
            if segment_is_name(&current) {
                all.push(current);
                assert(views(all@) =~= before.push(seen.last()));
            }
            current = Vec::new();
        } else {
            current.push(c);
            proof {
                assert(seen.drop_last().push(seen.last().push(c)).drop_last() =~= seen.drop_last());
            }
        }
        i += 1;
    }
    assert(path@.take(n as int) =~= path@);
    let ghost before = views(all@);
    if segment_is_name(&current) {
        all.push(current);
        assert(views(all@) =~= before.push(segments(path@).last()));
    }
    all
}

/// The components of `path`.
fn path_components(path: &[char]) -> (parts: Vec<Vec<char>>)
    ensures
        views(parts@) == components(path@),
{
    let mut lead: Vec<Vec<char>> = Vec::new();
    proof {
        lemma_first_segment(path@);
        path@.index_of_first_ensures('/');
    }
    if path.len() > 0 && path[0] == '/' {
        lead.push(Vec::new());
        assert(views(lead@) =~= seq![Seq::<char>::empty()]);
    } else if path.len() > 0 && path[0] == '.' && (path.len() == 1 || path[1] == '/') {
        let mut dot: Vec<char> = Vec::new();
        dot.push('.');
        lead.push(dot);
        proof {
            if path.len() == 1 {
                crate::text::lemma_index_of_absent(path@, '/');
                assert(path@ =~= seq!['.']);
            } else {
                crate::text::lemma_index_of_first_unique(path@, '/', 1);
                assert(path@.take(1) =~= seq!['.']);
            }
            assert(views(lead@) =~= seq![seq!['.']]);
        }
    } else {
        proof {
            let first = segments(path@).first();
            if first == seq!['.'] {
                assert(first.len() == 1);
                assert(first[0] == '.');
                match path@.index_of_first('/') {
                    Some(k) => {
                        assert(path@.take(k).len() == 1);
                        assert(path@.take(k)[0] == path@[0]);
                    },
                    None => {},
                }
            }
            assert(views(lead@) =~= Seq::<Seq<char>>::empty());
        }
    }
    collect_names(path, lead)
}

/// Whether `path` is `base` or lies below it, component by component.
pub fn path_is_within(path: &str, base: &str) -> (within: bool)
    ensures
        within == is_within(path@, base@),
{
    let p = to_chars(path);
    let b = to_chars(base);
    let inner = path_components(p.as_slice());
    let outer = path_components(b.as_slice());
    let m: usize = outer.len();
    if m > inner.len() {
        return false;
    }
    let mut k: usize = 0;
    while k < m
        invariant
            m == outer@.len(),
            m <= inner@.len(),
            k <= m,
            views(inner@) == components(path@),
            views(outer@) == components(base@),
            forall|j: int| 0 <= j < k ==> inner@[j]@ == outer@[j]@,
        decreases m - k,
    {
        let same = inner[k].len() == outer[k].len() && matches_at(
            inner[k].as_slice(),
            outer[k].as_slice(),
            0,
        );
        proof {
            let x = inner@[k as int]@;
            let y = outer@[k as int]@;
            if x.len() == y.len() {
                assert(x.subrange(0, y.len() as int) =~= x);
            }
        }
        if !same {
            assert(views(inner@).subrange(0, m as int)[k as int] != views(outer@)[k as int]);
            return false;
        }
        k += 1;
    }
    assert(views(outer@) =~= views(inner@).subrange(0, m as int));
    true
}

/// Whether `path` has a file name that is blank or holds a NUL character.
pub fn path_has_bad_file_name(path: &str) -> (bad: bool)
    ensures
        bad == has_bad_file_name(path@),
{
    let p = to_chars(path);
    let all = collect_names(p.as_slice(), Vec::new());
    assert(views(all@) =~= names(segments(path@)));
    if all.len() == 0 {
        return false;
    }
    let name = &all[all.len() - 1];
    assert(name@ == names(segments(path@)).last());
    if name.len() == 2 && name[0] == '.' && name[1] == '.' {
        assert(name@ =~= seq!['.', '.']);
        return false;
    }
    assert(name@ != seq!['.', '.']) by {
        if name@.len() == 2 {
            assert(name@[0] != seq!['.', '.'][0] || name@[1] != seq!['.', '.'][1]);
        }
    }
    let nul = find_char(name.as_slice(), '\0');
    proof {
        name@.index_of_first_ensures('\0');
    }
    if nul.is_some() {
        return true;
    }
    let (lo, hi) = trim_bounds(name.as_slice());
    lo == hi
}

impl AssetDownloader {
    /// The checks that need nothing but the destination's text: no `..`,
    /// and no absolute path into a system directory.
    pub fn screen_destination(&self, destination: &str) -> (r: Result<(), AssetError>)
        ensures
            unit_result_view(r) == text_verdict(destination@),
    {
        let d = to_chars(destination);
        let dots = to_chars("..");
        if find_chars(d.as_slice(), dots.as_slice()).is_some() {
            return Err(AssetError::PathTraversal);
        }
        let absolute = d.len() > 0 && d[0] == '/';
        if absolute && (has_prefix(d.as_slice(), to_chars("/etc").as_slice()) || has_prefix(
            d.as_slice(),
            to_chars("/usr").as_slice(),
        ) || has_prefix(d.as_slice(), to_chars("/var").as_slice()) || has_prefix(
            d.as_slice(),
            to_chars("/sys").as_slice(),
        ) || has_prefix(d.as_slice(), to_chars("/proc").as_slice()) || has_prefix(
            d.as_slice(),
            to_chars("/root").as_slice(),
        ) || has_prefix(d.as_slice(), to_chars("/boot").as_slice())) {
            return Err(AssetError::SystemDirectoryDenied);
        }
        Ok(())
    }

    /// The destination as a path from the working directory: where the
    /// filesystem is to be probed, and where an accepted download is written.
    pub fn resolve_destination(&self, destination: &str, working_dir: &str) -> (resolved: String)
        ensures
            resolved@ == join_path(working_dir@, destination@),
    {
        join_paths(working_dir, destination)
    }

    /// Decides whether a download may be written to `destination`, and where
    /// that is. `probe` says what the filesystem holds at
    /// `resolve_destination(destination, working_dir)`.
    pub fn validate_destination_path(
        &self,
        destination: &str,
        working_dir: &str,
        probe: &PathProbe,
    ) -> (r: Result<String, AssetError>)
        ensures
            text_result_view(r) == destination_verdict(destination@, working_dir@, probe@),
    {
        match self.screen_destination(destination) {
            Err(e) => {
                return Err(e);
            },
            Ok(_) => {},
        }
        if !is_absolute_path(destination) {
            match probe {
                PathProbe::Resolved(canonical) => {
                    if !path_is_within(canonical.as_str(), working_dir) {
                        return Err(AssetError::OutsideWorkingDirectory);
                    }
                },
                PathProbe::ParentResolved(canonical) => {
                    if !path_is_within(canonical.as_str(), working_dir) {
                        return Err(AssetError::OutsideWorkingDirectory);
                    }
                },
                PathProbe::ParentUnresolved(cause) => {
                    return Err(AssetError::IoError(cause.clone()));
                },
                PathProbe::Missing => {},
            }
        }
        if path_has_bad_file_name(destination) {
            return Err(AssetError::InvalidFilename);
        }
        Ok(join_paths(working_dir, destination))
    }
}

} // verus!
