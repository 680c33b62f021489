//! A task's links: adding, editing, removing and reordering them.

use vstd::prelude::*;
use vstd::string::*;

use crate::db::{Position, TaskLink};
use crate::error;
use crate::error::{missing_task, Error, ErrorCode};
use crate::instant::Instant;
use crate::tasks::service;
use crate::tasks::service::{is_named, TaskStamp};
use crate::tasks::types::{NewTaskLink, TaskLinkPatch};
use crate::text;
use crate::text::is_blank;

verus! {

/// Why a link is refused: its label is blank, or else its url is.
pub open spec fn refused(label: Seq<char>) -> Seq<char> {
    if text::blank(label) {
        "a task link needs a non-blank label"@
    } else {
        "a task link needs a non-blank url"@
    }
}

/// A link is acceptable: neither its label nor its url is blank.
pub open spec fn acceptable(label: Seq<char>, url: Seq<char>) -> bool {
    !text::blank(label) && !text::blank(url)
}

/// Refuses a link with a blank label or url.
pub fn validate_link(label: &str, url: &str) -> (r: Result<(), Error>)
    ensures
        r is Ok <==> acceptable(label@, url@),
        r matches Err(e) ==> e.says(ErrorCode::Invalid, refused(label@)),
{
    if is_blank(label) {
        return Err(Error::invalid("a task link needs a non-blank label".to_owned()));
    }
    if is_blank(url) {
        return Err(Error::invalid("a task link needs a non-blank url".to_owned()));
    }
    Ok(())
}

/// The refusal for a link id that names no link.
pub open spec fn no_link(id: Seq<char>) -> Seq<char> {
    "no task link with id "@ + id
}

fn missing_link(id: &str) -> (r: Error)
    ensures
        r.says(ErrorCode::NotFound, no_link(id@)),
{
    let mut message = "no task link with id ".to_owned();
    message.append(id);
    Error::not_found(message)
}

/// Refuses a task id that names no task.
pub fn ensure_task_exists(task_id: &str, count: i64) -> (r: Result<(), Error>)
    ensures
        r is Ok <==> count != 0,
        r matches Err(e) ==> e.says(ErrorCode::NotFound, error::no_task(task_id@)),
{
    if count == 0 {
        Err(missing_task(task_id))
    } else {
        Ok(())
    }
}

/// The row that a write of a link leaves, and the stamp that the link's task
/// gets with it.
#[derive(Debug, Clone, PartialEq, Eq)]
pub struct LinkChange {
    pub link: TaskLink,
    pub stamp: TaskStamp,
}

/// `change` writes `link` and stamps its task with `now`.
pub open spec fn writes(change: LinkChange, link: TaskLink, now: Instant) -> bool {
    change.link == link && change.stamp.marks(link.task_id@, now)
}

fn stamped(link: TaskLink, now: Instant) -> (r: LinkChange)
    ensures
        writes(r, link, now),
{
    let stamp = TaskStamp { task_id: link.task_id.clone(), updated_at: now };
    LinkChange { link, stamp }
}

/// Adds a link at a place at the bottom of its task's list: the row to write,
/// or why the link is refused.
pub fn add_task_link(
    task_id: &str,
    input: NewTaskLink,
    position: Position,
    id: String,
    now: Instant,
) -> (r: Result<LinkChange, Error>)
    ensures
        match r {
            Ok(change) => acceptable(input.label@, input.url@) && writes(change, change.link, now) && {
                &&& change.link.id == id
                &&& change.link.task_id@ == task_id@
                &&& change.link.label == input.label
                &&& change.link.url == input.url
                &&& change.link.position == position
            },
            Err(e) => !acceptable(input.label@, input.url@) && e.says(
                ErrorCode::Invalid,
                refused(input.label@),
            ),
        },
{
    match validate_link(input.label.as_str(), input.url.as_str()) {
        Ok(_) => {},
        Err(e) => return Err(e),
    }
    let link = TaskLink {
        id,
        task_id: task_id.to_owned(),
        label: input.label,
        url: input.url,
        position,
    };
    Ok(stamped(link, now))
}

/// What a field is after an edit that may mention it.
pub open spec fn edited(mentioned: Option<String>, current: String) -> String {
    match mentioned {
        Some(value) => value,
        None => current,
    }
}

/// Edits a link: the row to write, or why the edit is refused.
pub fn update_task_link(
    link_id: &str,
    row: Option<TaskLink>,
    patch: TaskLinkPatch,
    now: Instant,
) -> (r: Result<LinkChange, Error>)
    ensures
        match row {
            None => r matches Err(e) && e.says(ErrorCode::NotFound, no_link(link_id@)),
            Some(link) => {
                let label = edited(patch.label, link.label);
                let url = edited(patch.url, link.url);
                if acceptable(label@, url@) {
                    r matches Ok(change) && writes(change, TaskLink { label, url, ..link }, now)
                } else {
                    r matches Err(e) && e.says(ErrorCode::Invalid, refused(label@))
                }
            },
        },
{
    let mut link = match row {
        Some(link) => link,
        None => return Err(missing_link(link_id)),
    };
    if let Some(label) = patch.label {
        link.label = label;
    }
    if let Some(url) = patch.url {
        link.url = url;
    }
    match validate_link(link.label.as_str(), link.url.as_str()) {
        Ok(_) => Ok(stamped(link, now)),
        Err(e) => Err(e),
    }
}

/// The link an id names, or why there is none.
pub fn get_task_link(link_id: &str, row: Option<TaskLink>) -> (r: Result<TaskLink, Error>)
    ensures
        match row {
            None => r matches Err(e) && e.says(ErrorCode::NotFound, no_link(link_id@)),
            Some(link) => r == Ok::<TaskLink, Error>(link),
        },
{
    match row {
        Some(link) => Ok(link),
        None => Err(missing_link(link_id)),
    }
}

/// Removes a link: the stamp of the task it was on, or why there is nothing to
/// remove.
pub fn remove_task_link(link_id: &str, row: Option<TaskLink>, now: Instant) -> (r: Result<
    TaskStamp,
    Error,
>)
    ensures
        match row {
            None => r matches Err(e) && e.says(ErrorCode::NotFound, no_link(link_id@)),
            Some(link) => r matches Ok(stamp) && stamp.marks(link.task_id@, now),
        },
{
    match row {
        Some(link) => Ok(TaskStamp { task_id: link.task_id, updated_at: now }),
        None => Err(missing_link(link_id)),
    }
}

/// Whether a link may be reordered, before its place is looked for.
pub fn check_reorder(
    link_id: &str,
    row: &Option<TaskLink>,
    before_id: &Option<String>,
    after_id: &Option<String>,
) -> (r: Result<(), Error>)
    ensures
        if service::names(*before_id, link_id@) || service::names(*after_id, link_id@) {
            r matches Err(e) && e.says(
                ErrorCode::Invalid,
                "a link cannot be reordered next to itself"@,
            )
        } else if row is None {
            r matches Err(e) && e.says(ErrorCode::NotFound, no_link(link_id@))
        } else {
            r is Ok
        },
{
    if is_named(before_id, link_id) || is_named(after_id, link_id) {
        return Err(Error::invalid("a link cannot be reordered next to itself".to_owned()));
    }
    match row {
        Some(_) => Ok(()),
        None => Err(missing_link(link_id)),
    }
}

/// Reorders a link that [`check_reorder`] lets through: the row to write.
pub fn reorder_task_link(link: TaskLink, position: Position, now: Instant) -> (r: LinkChange)
    ensures
        writes(r, TaskLink { position, ..link }, now),
{
    let mut moved = link;
    moved.position = position;
    stamped(moved, now)
}

/// Adding and editing never leave a link with a blank label or url.
pub proof fn law_a_stored_link_is_never_blank(link: TaskLink, label: Seq<char>, url: Seq<char>)
    requires
        acceptable(label, url),
        link.label@ == label,
        link.url@ == url,
    ensures
        !text::blank(link.label@) && !text::blank(link.url@),
        text::trimmed(link.label@).len() > 0 && text::trimmed(link.url@).len() > 0,
{
    text::lemma_trimmed_empty_iff_blank(link.label@);
    text::lemma_trimmed_empty_iff_blank(link.url@);
}

/// A link is added exactly where its label and its url both say something, and
/// then as it was given, on the task and at the place it was given for; its task
/// is stamped.
pub proof fn law_a_link_is_added_as_it_was_given(
    task_id: &str,
    input: NewTaskLink,
    position: Position,
    id: String,
    now: Instant,
    r: Result<LinkChange, Error>,
)
    requires
        call_ensures(add_task_link, (task_id, input, position, id, now), r),
    ensures
        r is Ok <==> !text::blank(input.label@) && !text::blank(input.url@),
        r matches Err(e) ==> e.code == ErrorCode::Invalid,
        r matches Ok(change) ==> {
            &&& change.link.id == id
            &&& change.link.task_id@ == task_id@
            &&& change.link.label == input.label
            &&& change.link.url == input.url
            &&& change.link.position == position
            &&& change.stamp.task_id@ == task_id@
            &&& change.stamp.updated_at == now
        },
{
}

/// An edit of a link changes what it names and keeps the rest: the link stays on
/// its task and in its place. It is refused where it would leave the label or
/// the url saying nothing.
pub proof fn law_a_link_edit_changes_what_it_names(
    link_id: &str,
    row: Option<TaskLink>,
    patch: TaskLinkPatch,
    now: Instant,
    r: Result<LinkChange, Error>,
)
    requires
        call_ensures(update_task_link, (link_id, row, patch, now), r),
    ensures
        row is None ==> (r matches Err(e) && e.code == ErrorCode::NotFound),
        row matches Some(link) ==> {
            &&& r is Ok <==> {
                &&& patch.label matches Some(label) ==> !text::blank(label@)
                &&& patch.label is None ==> !text::blank(link.label@)
                &&& patch.url matches Some(url) ==> !text::blank(url@)
                &&& patch.url is None ==> !text::blank(link.url@)
            }
            &&& r matches Ok(change) ==> {
                &&& patch.label matches Some(label) ==> change.link.label == label
                &&& patch.label is None ==> change.link.label == link.label
                &&& patch.url matches Some(url) ==> change.link.url == url
                &&& patch.url is None ==> change.link.url == link.url
                &&& change.link.id == link.id
                &&& change.link.task_id == link.task_id
                &&& change.link.position == link.position
                &&& change.stamp.task_id@ == link.task_id@
                &&& change.stamp.updated_at == now
            }
            &&& r matches Err(e) ==> e.code == ErrorCode::Invalid
        },
{
}

/// Reordering a link changes its place, and removing one takes it off: either
/// way its own task is stamped with the time, and nothing else of a link that
/// stays changes.
pub proof fn law_reordering_and_removing_stamp_the_task(
    link: TaskLink,
    position: Position,
    now: Instant,
    moved: LinkChange,
    link_id: &str,
    row: Option<TaskLink>,
    removed: Result<TaskStamp, Error>,
)
    requires
        call_ensures(reorder_task_link, (link, position, now), moved),
        call_ensures(remove_task_link, (link_id, row, now), removed),
    ensures
        moved.link.position == position,
        link == (TaskLink { position: link.position, ..moved.link }),
        moved.stamp.task_id@ == link.task_id@ && moved.stamp.updated_at == now,
        removed is Ok <==> row is Some,
        removed matches Ok(stamp) ==> stamp.task_id@ == row->0.task_id@ && stamp.updated_at == now,
        removed matches Err(e) ==> e.code == ErrorCode::NotFound,
{
}

/// A link may be reordered exactly where it is there and is not its own
/// neighbour.
pub proof fn law_when_a_link_may_be_reordered(
    link_id: &str,
    row: Option<TaskLink>,
    before_id: Option<String>,
    after_id: Option<String>,
    r: Result<(), Error>,
)
    requires
        call_ensures(check_reorder, (link_id, &row, &before_id, &after_id), r),
    ensures
        r is Ok <==> {
            &&& row is Some
            &&& before_id matches Some(other) ==> other@ != link_id@
            &&& after_id matches Some(other) ==> other@ != link_id@
        },
{
}

/// A link is what its row says, where there is one; and it is validated as it is
/// added: its label and its url both say something. Its task must be there.
pub proof fn law_a_link_is_read_and_validated_as_it_is(
    link_id: &str,
    row: Option<TaskLink>,
    read: Result<TaskLink, Error>,
    label: &str,
    url: &str,
    valid: Result<(), Error>,
    task_id: &str,
    count: i64,
    there: Result<(), Error>,
)
    requires
        call_ensures(get_task_link, (link_id, row), read),
        call_ensures(validate_link, (label, url), valid),
        call_ensures(ensure_task_exists, (task_id, count), there),
    ensures
        read is Ok <==> row is Some,
        read matches Ok(link) ==> Some(link) == row,
        read matches Err(e) ==> e.code == ErrorCode::NotFound,
        valid is Ok <==> !text::blank(label@) && !text::blank(url@),
        valid matches Err(e) ==> e.code == ErrorCode::Invalid,
        there is Err <==> count == 0,
        there matches Err(e) ==> e.code == ErrorCode::NotFound,
{
}

} // verus!
