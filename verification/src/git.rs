//! Which files of a repository have uncommitted changes.
use vstd::prelude::*;

verus! {

/// The status of one file of a repository: its status bits (zero when it is
/// unchanged, as `git2::Status::CURRENT`) and its path, when it is text.
pub struct FileStatus {
    pub bits: u32,
    pub path: Option<String>,
}

/// The paths of the changed files, in order.
pub open spec fn changed_paths(s: Seq<FileStatus>) -> Seq<Seq<char>>
    decreases s.len(),
{
    if s.len() == 0 {
        Seq::empty()
    } else {
        let rest = changed_paths(s.drop_last());
        match s.last().path {
            Some(p) => if s.last().bits != 0 {
                rest.push(p@)
            } else {
                rest
            },
            None => rest,
        }
    }
}

/// The paths of the files whose status is not unchanged, in order.
pub fn dirty_paths(statuses: &Vec<FileStatus>) -> (r: Vec<String>)
    ensures
        r@.map_values(|s: String| s@) == changed_paths(statuses@),
{
    let mut out: Vec<String> = Vec::new();
    let mut i: usize = 0;
    while i < statuses.len()
        invariant
            i <= statuses.len(),
            out@.map_values(|s: String| s@) == changed_paths(statuses@.take(i as int)),
        decreases statuses.len() - i,
    {
        assert(statuses@.take(i + 1).drop_last() == statuses@.take(i as int));
        assert(statuses@.take(i + 1).last() == statuses@[i as int]);
        let ghost before = out@;
        if statuses[i].bits != 0 {
            match &statuses[i].path {
                Some(p) => {
                    out.push(p.clone());
                    assert(out@.map_values(|s: String| s@) =~= before.map_values(|s: String| s@).push(p@));
                },
                None => {},
            }
        }
        i = i + 1;
    }
    assert(statuses@.take(statuses.len() as int) == statuses@);
    out
}

} // verus!
