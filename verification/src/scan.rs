//! The scanner: from a listing of the storage root to the ordered list of
//! conversation records.
//!
//! Reading the disk is left to the caller, who hands over what was found:
//! per workspace folder its files, per file its size, its modification
//! time, its sidecar folder and its lines. The current time is an argument
//! too, so that nothing here depends on a clock.

use crate::conversation::{optional_view, warmup_label, well_formed, Conversation, Record};
use crate::names::{is_agent, is_agent_name, transcript_stem, transcript_stem_of};
use crate::ranking::{
    is_sorted, lemma_sort_ignores_listing_order, lemma_stable_sorted, no_ties, sort_ranked,
    stable_sorted, views,
};
use crate::timestamp::{is_later, last_present, Timestamp};
use crate::transcript::{
    extract_timestamp, extract_title, is_warmup_only, line_stamps, title_of, warmup_only, Entry,
};
use crate::workspace::{
    decode_workspace_name, decoded, optional_text, workspace_included, workspace_matches,
};
use vstd::prelude::*;
use vstd::string::StringExecFns;

verus! {

/// One file of a workspace folder, as read off the disk.
#[derive(Clone, Debug, PartialEq, Eq)]
pub struct TranscriptFile {
    /// The file's name inside its folder, extension included.
    pub name: String,
    /// Where the file lies.
    pub path: String,
    /// The file's size in bytes.
    pub size: u64,
    /// When the file was last modified, where that is known.
    pub modified: Option<Timestamp>,
    /// The folder that shares the file's base name, where there is one.
    pub sidecar: Option<String>,
    /// The file's lines, one entry each, `None` for a line that is no
    /// record. Not looked at for an empty file.
    pub lines: Vec<Option<Entry>>,
}

/// One workspace folder of the storage root, as read off the disk.
#[derive(Clone, Debug, PartialEq, Eq)]
pub struct Workspace {
    /// Where the folder lies.
    pub folder: String,
    /// The folder's encoded name.
    pub name: String,
    /// The files in the folder.
    pub files: Vec<TranscriptFile>,
}

/// A file modified less than this many seconds ago counts as active.
pub open spec fn recency_window() -> int {
    300
}

/// Whole seconds from `modified` to `now`; none where `modified` lies
/// after `now`.
pub open spec fn elapsed_secs(modified: Timestamp, now: Timestamp) -> Option<int> {
    if is_later(modified, now) {
        None
    } else if now.nanos < modified.nanos {
        Some(now.secs - modified.secs - 1)
    } else {
        Some(now.secs - modified.secs)
    }
}

/// Whether a file modified at `modified` counts as active at `now`: its
/// modification time is known, does not lie after `now`, and lies less
/// than the recency window before it.
pub open spec fn is_recent(modified: Option<Timestamp>, now: Timestamp) -> bool {
    match modified {
        Some(at) => elapsed_secs(at, now) matches Some(secs) && secs < recency_window(),
        None => false,
    }
}

/// Whether a file of a workspace folder is listed: it is a transcript, and
/// no agent unless agents are asked for.
pub open spec fn is_listed(file_name: Seq<char>, include_agents: bool) -> bool {
    transcript_stem(file_name) matches Some(stem) && (include_agents || !is_agent_name(stem))
}

/// The record of a transcript file. An empty file has neither title nor
/// timestamp. Of a file with content the title is the warmup label where
/// the file is an agent's and warmup-only, else what its lines give.
pub open spec fn described(
    workspace_folder: Seq<char>,
    workspace_path: Seq<char>,
    file: TranscriptFile,
    now: Timestamp,
) -> Record
    recommends
        transcript_stem(file.name@) is Some,
{
    let stem = transcript_stem(file.name@)->0;
    let empty = file.size == 0;
    Record {
        path: file.path@,
        session_id: stem,
        workspace_folder,
        workspace_path,
        is_empty: empty,
        is_active: is_recent(file.modified, now),
        title: if empty {
            None
        } else if is_agent_name(stem) && warmup_only(file.lines@) {
            Some(warmup_label())
        } else {
            title_of(file.lines@)
        },
        timestamp: if empty {
            None
        } else {
            last_present(line_stamps(file.lines@))
        },
        folder_path: optional_view(file.sidecar),
    }
}

/// The records of the listed files among the first `n` of a folder, in
/// the order of the files.
pub open spec fn folder_records(
    workspace: Workspace,
    n: int,
    include_agents: bool,
    now: Timestamp,
) -> Seq<Record>
    decreases n,
{
    if n <= 0 {
        Seq::empty()
    } else {
        let earlier = folder_records(workspace, n - 1, include_agents, now);
        let file = workspace.files@[n - 1];
        if is_listed(file.name@, include_agents) {
            earlier.push(described(workspace.folder@, decoded(workspace.name@), file, now))
        } else {
            earlier
        }
    }
}

/// The records of the first `n` workspaces, those that pass the filter,
/// in the order of the listing.
pub open spec fn found_records(
    listing: Seq<Workspace>,
    n: int,
    filter: Option<Seq<char>>,
    include_agents: bool,
    now: Timestamp,
) -> Seq<Record>
    decreases n,
{
    if n <= 0 {
        Seq::empty()
    } else {
        let earlier = found_records(listing, n - 1, filter, include_agents, now);
        let workspace = listing[n - 1];
        if workspace_included(workspace.name@, filter) {
            earlier + folder_records(
                workspace,
                workspace.files@.len() as int,
                include_agents,
                now,
            )
        } else {
            earlier
        }
    }
}

/// What a scan of the listing yields: the records found, in listing
/// order.
pub open spec fn scanned(
    listing: Seq<Workspace>,
    filter: Option<Seq<char>>,
    include_agents: bool,
    now: Timestamp,
) -> Seq<Record> {
    stable_sorted::<Conversation>(
        found_records(listing, listing.len() as int, filter, include_agents, now),
    )
}

/// Whether a file last modified at `modified` counts as active at `now`.
pub fn is_active_at(modified: Option<Timestamp>, now: Timestamp) -> (active: bool)
    ensures
        active == is_recent(modified, now),
{
    match modified {
        Some(at) => {
            if at.later_than(&now) {
                return false;
            }
            let apart: i128 = now.secs as i128 - at.secs as i128;
            let whole: i128 = if now.nanos < at.nanos {
                apart - 1
            } else {
                apart
            };
            whole < 300
        },
        None => false,
    }
}

/// A copy of an optional string.
fn copy_optional(text: &Option<String>) -> (copy: Option<String>)
    ensures
        optional_view(copy) == optional_view(*text),
{
    match text {
        Some(t) => Some(t.clone()),
        None => None,
    }
}

/// The record of one file of a workspace folder, `None` for a file that
/// is no transcript. A record is empty exactly when the file holds no
/// bytes, and then it has neither title nor timestamp: the lines of an
/// empty file are not looked at.
pub fn describe(
    workspace_folder: &str,
    workspace_path: &str,
    file: &TranscriptFile,
    now: Timestamp,
) -> (made: Option<Conversation>)
    ensures
        made is Some <==> transcript_stem(file.name@) is Some,
        made matches Some(conv) ==> {
            &&& conv@ == described(workspace_folder@, workspace_path@, *file, now)
            &&& conv@.is_empty == (file.size == 0)
            &&& well_formed(conv@)
        },
{
    match transcript_stem_of(file.name.as_str()) {
        Some(stem) => {
            let empty = file.size == 0;
            let agent = is_agent(stem.as_str());
            let title = if empty {
                None
            } else if agent && is_warmup_only(&file.lines) {
                Some(String::from_str("[Warmup]"))
            } else {
                extract_title(&file.lines)
            };
            let timestamp = if empty {
                None
            } else {
                extract_timestamp(&file.lines)
            };
            Some(
                Conversation {
                    path: file.path.clone(),
                    session_id: stem,
                    workspace_folder: String::from_str(workspace_folder),
                    workspace_path: String::from_str(workspace_path),
                    is_empty: empty,
                    is_active: is_active_at(file.modified, now),
                    title,
                    timestamp,
                    folder_path: copy_optional(&file.sidecar),
                },
            )
        },
        None => None,
    }
}

/// Scans a listing of the storage root. Every workspace that passes the
/// filter gives one record per transcript file, agents only where
/// `include_agents` is set. The records come back in listing order: by
/// tier, then by timestamp, then by path, ties left as the listing had
/// them. Each record is well formed.
pub fn scan_conversations(
    listing: &Vec<Workspace>,
    filter: Option<&str>,
    include_agents: bool,
    now: Timestamp,
) -> (out: Vec<Conversation>)
    ensures
        views(out@) == scanned(listing@, optional_text(filter), include_agents, now),
        forall|i: int| 0 <= i < out.len() ==> well_formed(#[trigger] out[i]@),
{
    let mut found: Vec<Conversation> = Vec::new();
    let mut w: usize = 0;
    assert(views(found@) =~= Seq::<Record>::empty());
    while w < listing.len()
        invariant
            w <= listing.len(),
            views(found@) == found_records(
                listing@,
                w as int,
                optional_text(filter),
                include_agents,
                now,
            ),
            forall|i: int| 0 <= i < found.len() ==> well_formed(#[trigger] found[i]@),
        decreases listing.len() - w,
    {
        let workspace = &listing[w];
        if workspace_matches(workspace.name.as_str(), filter) {
            let workspace_path = decode_workspace_name(workspace.name.as_str());
            let ghost earlier = views(found@);
            let mut f: usize = 0;
            assert(views(found@) =~= earlier + Seq::<Record>::empty());
            while f < workspace.files.len()
                invariant
                    f <= workspace.files.len(),
                    workspace_path@ == decoded(workspace.name@),
                    views(found@) == earlier + folder_records(
                        *workspace,
                        f as int,
                        include_agents,
                        now,
                    ),
                    forall|i: int| 0 <= i < found.len() ==> well_formed(#[trigger] found[i]@),
                decreases workspace.files.len() - f,
            {
                let file = &workspace.files[f];
                let ghost so_far = folder_records(*workspace, f as int, include_agents, now);
                match describe(workspace.folder.as_str(), workspace_path.as_str(), file, now) {
                    Some(conv) => {
                        if include_agents || !is_agent(conv.session_id.as_str()) {
                            assert(views(found@.push(conv)) =~= (earlier + so_far).push(conv@));
                            assert((earlier + so_far).push(conv@) =~= earlier + so_far.push(
                                conv@,
                            ));
                            found.push(conv);
                        }
                    },
                    None => {},
                }
                f += 1;
            }
        }
        w += 1;
    }
    let ghost gathered = found@;
    let out = sort_ranked(found);
    proof {
        assert forall|i: int| 0 <= i < out.len() implies well_formed(#[trigger] out[i]@) by {
            broadcast use vstd::seq_lib::group_to_multiset_ensures;

            assert(out@.contains(out[i]));
            assert(out@.to_multiset().count(out[i]) > 0);
            assert(gathered.contains(out[i]));
            let k = choose|k: int| 0 <= k < gathered.len() && gathered[k] == out[i];
            assert(well_formed(gathered[k]@));
        }
    }
    out
}

/// The record of a file is empty exactly when the file holds no bytes,
/// and then it has neither title nor timestamp, whatever its lines hold.
pub proof fn lemma_described_empty(
    workspace_folder: Seq<char>,
    workspace_path: Seq<char>,
    file: TranscriptFile,
    now: Timestamp,
)
    ensures
        described(workspace_folder, workspace_path, file, now).is_empty <==> file.size == 0,
        well_formed(described(workspace_folder, workspace_path, file, now)),
{
}

/// A scan yields a sorted list of exactly the records found.
pub proof fn lemma_scanned_is_sorted(
    listing: Seq<Workspace>,
    filter: Option<Seq<char>>,
    include_agents: bool,
    now: Timestamp,
)
    ensures
        is_sorted::<Conversation>(scanned(listing, filter, include_agents, now)),
        scanned(listing, filter, include_agents, now).to_multiset() == found_records(
            listing,
            listing.len() as int,
            filter,
            include_agents,
            now,
        ).to_multiset(),
{
    lemma_stable_sorted::<Conversation>(
        found_records(listing, listing.len() as int, filter, include_agents, now),
    );
}

/// Two scans that find the same records yield the same list, in whatever
/// order the folders and files were listed, as long as no two records are
/// tied in the listing order.
pub proof fn lemma_scan_ignores_listing_order(
    first: Seq<Workspace>,
    second: Seq<Workspace>,
    filter: Option<Seq<char>>,
    include_agents: bool,
    now: Timestamp,
)
    requires
        found_records(first, first.len() as int, filter, include_agents, now).to_multiset()
            == found_records(
            second,
            second.len() as int,
            filter,
            include_agents,
            now,
        ).to_multiset(),
        no_ties::<Conversation>(
            found_records(first, first.len() as int, filter, include_agents, now),
        ),
    ensures
        scanned(first, filter, include_agents, now) == scanned(
            second,
            filter,
            include_agents,
            now,
        ),
{
    lemma_sort_ignores_listing_order::<Conversation>(
        found_records(first, first.len() as int, filter, include_agents, now),
        found_records(second, second.len() as int, filter, include_agents, now),
    );
}

} // verus!
