//! The marker by which an operator says: leave this change out, and go on with
//! the others.
use vstd::prelude::*;
use crate::clock::Timestamp;
use crate::path::{join_path, joined};
use crate::text::cat2;

verus! {

/// What the marker says.
#[derive(Debug, Clone, PartialEq, Eq)]
pub struct IgnoreForQueueMarker {
    pub change: String,
    pub marked_at: Timestamp,
    pub marked_by: String,
    pub reason: String,
    pub operator_action: String,
}

pub open spec fn reason_text() -> Seq<char> {
    "operator-driven skip; original marker(s) preserved"@
}

pub open spec fn operator_action_text() -> Seq<char> {
    "Delete this file (or use @<bot> clear-ignore) to re-block the queue on the original marker."@
}

/// The reason where none is given.
pub fn default_reason() -> (r: String)
    ensures
        r@ == reason_text(),
{
    "operator-driven skip; original marker(s) preserved".to_owned()
}

/// What the operator is told where nothing else is given.
pub fn default_operator_action() -> (r: String)
    ensures
        r@ == operator_action_text(),
{
    "Delete this file (or use @<bot> clear-ignore) to re-block the queue on the original marker.".to_owned()
}

/// Where the specifications of a repository are.
#[derive(Debug)]
pub struct SpecRoot {
    pub dir: String,
}

impl SpecRoot {
    /// Where its changes are.
    pub fn changes_dir(&self) -> (r: String)
        ensures
            r@ == joined(self.dir@, "changes"@),
    {
        join_path(self.dir.as_str(), "changes")
    }
}

/// The directory of a change.
pub open spec fn change_place(root: SpecRoot, change: Seq<char>) -> Seq<char> {
    joined(joined(root.dir@, "changes"@), change)
}

/// The directory of a change.
pub fn change_dir(spec_root: &SpecRoot, change: &str) -> (r: String)
    ensures
        r@ == change_place(*spec_root, change@),
{
    join_path(spec_root.changes_dir().as_str(), change)
}

/// Where the marker of a change is.
pub fn marker_path(spec_root: &SpecRoot, change: &str) -> (r: String)
    ensures
        r@ == joined(change_place(*spec_root, change@), ".ignore-for-queue.json"@),
{
    join_path(change_dir(spec_root, change).as_str(), ".ignore-for-queue.json")
}

/// Says what to write to the marker of a change. A change whose directory is not
/// there gets none.
pub fn write_marker(
    spec_root: &SpecRoot,
    change: &str,
    marked_by: &str,
    is_dir: bool,
    now: Timestamp,
) -> (r: Result<IgnoreForQueueMarker, String>)
    ensures
        if is_dir {
            &&& r matches Ok(m)
            &&& m.change@ == change@
            &&& m.marked_at == now
            &&& m.marked_by@ == marked_by@
            &&& m.reason@ == reason_text()
            &&& m.operator_action@ == operator_action_text()
        } else {
            r matches Err(e) && e@ == "change directory does not exist: "@ + change_place(
                *spec_root,
                change@,
            )
        },
{
    if !is_dir {
        let dir = change_dir(spec_root, change);
        return Err(cat2("change directory does not exist: ", dir.as_str()));
    }
    Ok(
        IgnoreForQueueMarker {
            change: change.to_owned(),
            marked_at: now,
            marked_by: marked_by.to_owned(),
            reason: default_reason(),
            operator_action: default_operator_action(),
        },
    )
}

/// What is stamped on a change: its name, who stamped it and when, with the standing words;
/// exactly where the change has a directory, and otherwise that directory is named. The
/// marker stands in it.
pub proof fn a_marker_stands_in_its_change(
    root: SpecRoot,
    change: &str,
    marked_by: &str,
    is_dir: bool,
    now: Timestamp,
    r: Result<IgnoreForQueueMarker, String>,
    path: String,
    dir: String,
)
    requires
        call_ensures(write_marker, (&root, change, marked_by, is_dir, now), r),
        call_ensures(marker_path, (&root, change), path),
        call_ensures(change_dir, (&root, change), dir),
    ensures
        r is Ok <==> is_dir,
        r matches Ok(m) ==> m.change@ == change@ && m.marked_at == now && m.marked_by@
            == marked_by@ && m.reason@ == "operator-driven skip; original marker(s) preserved"@
            && m.operator_action@
            == "Delete this file (or use @<bot> clear-ignore) to re-block the queue on the original marker."@,
        r matches Err(e) ==> e@ == "change directory does not exist: "@ + dir@,
        dir@ == joined(joined(root.dir@, "changes"@), change@),
        path@ == joined(dir@, ".ignore-for-queue.json"@),
{
}

} // verus!
