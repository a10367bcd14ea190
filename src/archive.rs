//! Unpacking the zip archive of one distribution version: which directories
//! to create and which files to write, relative to the target directory.

use vstd::prelude::*;

verus! {

/// One entry of a zip archive: its path when that path stays inside the
/// extraction directory, whether it is a directory, and its contents.
pub struct ZipItem {
    pub path: Option<String>,
    pub is_dir: bool,
    pub data: Vec<u8>,
}

impl View for ZipItem {
    type V = (Option<Seq<char>>, bool, Seq<u8>);

    open spec fn view(&self) -> Self::V {
        (
            match self.path {
                Some(p) => Some(p@),
                None => None,
            },
            self.is_dir,
            self.data@,
        )
    }
}

/// One write into the target directory: a directory to create (with its
/// parents), or a file to write (after creating its parent directory).
pub struct ExtractStep {
    pub is_dir: bool,
    pub path: String,
    pub data: Vec<u8>,
}

impl View for ExtractStep {
    type V = (bool, Seq<char>, Seq<u8>);

    open spec fn view(&self) -> Self::V {
        (self.is_dir, self.path@, self.data@)
    }
}

/// The writes that extract an archive, and the directory that holds it.
pub struct ExtractionPlan {
    /// The path of the first safe entry, relative to the target directory.
    pub root: String,
    pub steps: Vec<ExtractStep>,
}

#[derive(Debug, Clone, Copy, PartialEq, Eq)]
pub enum ExtractError {
    /// The zip archive is malformed.
    Archive,
    /// No entry of the archive has a path inside the target directory.
    NoRoot,
}

/// What the zip crate lists of an archive: each entry's enclosed name (none
/// for an absolute path or one that climbs out with `..`), directory flag and
/// contents, in stored order; or nothing when the archive is malformed.
pub uninterp spec fn zip_listing_of(data: Seq<u8>) -> Option<Seq<(Option<Seq<char>>, bool, Seq<u8>)>>;

/// Relies on zip's `ZipArchive::by_index`, and on each file's
/// `enclosed_name`, `is_dir` and contents, listed in stored order.
#[verifier::external_body]
fn zip_listing(data: &[u8]) -> (r: Option<Vec<ZipItem>>)
    ensures
        match r {
            Some(v) => zip_listing_of(data@) == Some(v@.map_values(|z: ZipItem| z@)),
            None => zip_listing_of(data@) is None,
        },
{
    let mut archive = zip::ZipArchive::new(std::io::Cursor::new(data)).ok()?;
    let mut out = Vec::new();
    for idx in 0..archive.len() {
        let mut file = archive.by_index(idx).ok()?;
        let path = file.enclosed_name().map(|p| p.to_string_lossy().into_owned());
        let is_dir = file.is_dir();
        let mut contents = Vec::new();
        std::io::Read::read_to_end(&mut file, &mut contents).ok()?;
        out.push(ZipItem { path, is_dir, data: contents });
    }
    Some(out)
}

/// The writes for the safe entries of `items`, in order; unsafe ones are
/// skipped.
pub open spec fn planned_steps(items: Seq<(Option<Seq<char>>, bool, Seq<u8>)>) -> Seq<
    (bool, Seq<char>, Seq<u8>),
>
    decreases items.len(),
{
    if items.len() == 0 {
        Seq::empty()
    } else {
        let rest = planned_steps(items.drop_last());
        let (path, is_dir, data) = items.last();
        match path {
            Some(p) => rest.push((is_dir, p, data)),
            None => rest,
        }
    }
}

/// The plan for an archive, as `extraction_plan` returns it.
pub open spec fn planned(archive: Seq<u8>) -> Result<(Seq<char>, Seq<(bool, Seq<char>, Seq<u8>)>), ExtractError> {
    match zip_listing_of(archive) {
        None => Err(ExtractError::Archive),
        Some(items) => {
            let steps = planned_steps(items);
            if steps.len() == 0 {
                Err(ExtractError::NoRoot)
            } else {
                Ok((steps[0].1, steps))
            }
        },
    }
}

/// Plans the extraction of a zip archive: every entry whose path stays inside
/// the target directory becomes a write, in stored order, and the first such
/// entry's path is the root of the extracted tree.
pub fn extraction_plan(archive: &[u8]) -> (r: Result<ExtractionPlan, ExtractError>)
    ensures
        match (r, planned(archive@)) {
            (Ok(plan), Ok((root, steps))) => plan.root@ == root && plan.steps@.map_values(
                |s: ExtractStep| s@,
            ) == steps,
            (Err(e), Err(f)) => e == f,
            _ => false,
        },
{
    let mut items = match zip_listing(archive) {
        Some(items) => items,
        None => return Err(ExtractError::Archive),
    };
    let ghost listed = items@.map_values(|z: ZipItem| z@);
    let n = items.len();
    // Entries are moved out of `items` from the back into `taken`, then moved
    // from the back of `taken` into `steps`, which restores their order.
    let mut taken: Vec<ExtractStep> = Vec::new();
    let mut i: usize = 0;
    assert(listed.take(n as int) =~= listed);
    assert(planned_steps(listed.take(n as int)) + taken@.reverse().map_values(|s: ExtractStep| s@)
        =~= planned_steps(listed.take(n as int)));
    while i < n
        invariant
            i <= n,
            n == listed.len(),
            items@.len() == n - i,
            forall|k: int| 0 <= k < n - i ==> #[trigger] items@[k]@ == listed[k],
            planned_steps(listed) == planned_steps(listed.take(n - i)) + taken@.reverse().map_values(
                |s: ExtractStep| s@,
            ),
        decreases n - i,
    {
        let item = items.pop().unwrap();
        let ghost j = n - i - 1;
        assert(listed.take(j + 1).drop_last() =~= listed.take(j));
        assert(listed.take(j + 1).last() == item@);
        match item.path {
            Some(path) => {
                let ghost before = taken@;
                taken.push(ExtractStep { is_dir: item.is_dir, path, data: item.data });
                assert(taken@.reverse() =~= seq![taken@.last()] + before.reverse());
                assert(taken@.reverse().map_values(|s: ExtractStep| s@) =~= seq![taken@.last()@]
                    + before.reverse().map_values(|s: ExtractStep| s@));
            },
            None => {},
        }
        i = i + 1;
    }
    assert(listed.take(0) =~= Seq::<(Option<Seq<char>>, bool, Seq<u8>)>::empty());
    let mut steps: Vec<ExtractStep> = Vec::new();
    while taken.len() > 0
        invariant
            planned_steps(listed) == steps@.map_values(|s: ExtractStep| s@)
                + taken@.reverse().map_values(|s: ExtractStep| s@),
        decreases taken@.len(),
    {
        let ghost before = taken@;
        let ghost done = steps@;
        let step = taken.pop().unwrap();
        steps.push(step);
        assert(before.reverse() =~= seq![step] + taken@.reverse());
        assert(steps@.map_values(|s: ExtractStep| s@) =~= done.map_values(|s: ExtractStep| s@).push(
            step@,
        ));
        assert(before.reverse().map_values(|s: ExtractStep| s@) =~= seq![step@]
            + taken@.reverse().map_values(|s: ExtractStep| s@));
        assert(planned_steps(listed) =~= steps@.map_values(|s: ExtractStep| s@)
            + taken@.reverse().map_values(|s: ExtractStep| s@));
    }
    assert(taken@.reverse().map_values(|s: ExtractStep| s@) =~= Seq::<(bool, Seq<char>, Seq<u8>)>::empty());
    assert(planned_steps(listed) =~= steps@.map_values(|s: ExtractStep| s@));
    if steps.len() == 0 {
        return Err(ExtractError::NoRoot);
    }
    let root = steps[0].path.clone();
    assert(steps@.map_values(|s: ExtractStep| s@)[0] == steps@[0]@);
    Ok(ExtractionPlan { root, steps })
}

} // verus!
