//! What holds of the pipeline whatever it is told: the laws of ingestion,
//! of the duplicate check and of the upload.

use vstd::prelude::*;
use crate::api::texts;
use crate::file::{FileMessage, FileState, FileView, UploadStep};
use crate::media::is_video_path;
use crate::message::{CommandView, Event, Filter, Message};
use crate::model::{
    analyzing_count, checks_in, each_once, in_states, is_drop, outcome_of, rows_before, AppView,
};
use crate::selection::lemma_click_keeps_rows_distinct;

verus! {

/// Offering a path keeps the state valid.
pub proof fn lemma_add_path_keeps_wf(state: AppView, path: Seq<char>)
    requires
        state.wf(),
    ensures
        state.add_path(path).wf(),
{
    if state.admits(path) {
        let next = state.add_path(path);
        let fresh = FileView::fresh(state.id_counter, path);
        assert(fresh.wf());
        assert forall|i: int| 0 <= i < next.files.len() implies (#[trigger] next.files[i]).wf()
            && next.files[i].id < next.id_counter by {
            if i < state.files.len() {
                assert(next.files[i] == state.files[i]);
            }
        }
        assert forall|i: int, j: int| 0 <= i < j < next.files.len() implies (
        #[trigger] next.files[i]).id != (#[trigger] next.files[j]).id && next.files[i].path
            != next.files[j].path by {
            assert(next.files[i] == state.files[i]);
            if j < state.files.len() {
                assert(next.files[j] == state.files[j]);
            }
        }
    }
}

/// Offering paths in turn keeps the state valid.
pub proof fn lemma_add_paths_keeps_wf(state: AppView, paths: Seq<Seq<char>>)
    requires
        state.wf(),
    ensures
        state.add_paths(paths).wf(),
    decreases paths.len(),
{
    if paths.len() > 0 {
        lemma_add_paths_keeps_wf(state, paths.drop_last());
        lemma_add_path_keeps_wf(state.add_paths(paths.drop_last()), paths.last());
    }
}

/// A state that differs from a valid one only in how far its files have
/// come, each still valid, and in what is selected, is valid.
pub proof fn lemma_same_files_keep_wf(state: AppView, next: AppView)
    requires
        state.wf(),
        next.files.len() == state.files.len(),
        forall|i: int|
            0 <= i < state.files.len() ==> (#[trigger] next.files[i]).wf() && next.files[i].id
                == state.files[i].id && next.files[i].path == state.files[i].path,
        next.id_counter == state.id_counter,
        next.file_selection.wf(),
        next.current_config == state.current_config,
        next.current_user == state.current_user,
        next.current_scene == state.current_scene,
    ensures
        next.wf(),
{
    assert forall|i: int| 0 <= i < next.files.len() implies (#[trigger] next.files[i]).wf()
        && next.files[i].id < next.id_counter by {
        assert(state.files[i].id < state.id_counter);
    }
    assert forall|i: int, j: int| 0 <= i < j < next.files.len() implies (
    #[trigger] next.files[i]).id != (#[trigger] next.files[j]).id && next.files[i].path
        != next.files[j].path by {
        assert(state.files[i].id != state.files[j].id);
        assert(state.files[i].path != state.files[j].path);
    }
}

/// Every message takes a valid state to a valid state: whatever the
/// pipeline is told, the identifiers of the files rise in the order of
/// ingestion, no two files share a path, and each file has what its state
/// calls for.
pub proof fn lemma_step_keeps_wf(state: AppView, message: Message)
    requires
        state.wf(),
    ensures
        state.step(message).wf(),
{
    let next = state.step(message);
    match message {
        Message::EventOccurred(event) => {
            match event {
                Event::FileDropped(paths) => {
                    lemma_add_paths_keeps_wf(
                        AppView { hovering_with_files: false, ..state },
                        texts(paths@),
                    );
                },
                _ => {},
            }
        },
        Message::FileAnalyzed(id, result) => {
            match result {
                Ok(analysis) => {
                    analysis.lemma_digest_len();
                },
                Err(_) => {},
            }
            lemma_same_files_keep_wf(state, next);
        },
        Message::FileMessage(id, FileMessage::Analyzed(analysis)) => {
            analysis.lemma_digest_len();
            lemma_same_files_keep_wf(state, next);
        },
        Message::SelectFile(index) => {
            lemma_click_keeps_rows_distinct(
                state.file_selection,
                index,
                state.left_shift,
                state.left_control,
            );
        },
        Message::DuplicateCheckResponse(_, _) => {
            lemma_same_files_keep_wf(state, next);
        },
        Message::DuplicateCheckFailed(_) => {
            lemma_same_files_keep_wf(state, next);
        },
        Message::Enqueue => {
            lemma_same_files_keep_wf(state, next);
        },
        Message::StartUpload => {
            lemma_same_files_keep_wf(state, next);
        },
        Message::UploadReserved(_, _) => {
            lemma_same_files_keep_wf(state, next);
        },
        Message::FileUploaded(_) => {
            lemma_same_files_keep_wf(state, next);
        },
        Message::SuccessfulUpload(_) => {
            lemma_same_files_keep_wf(state, next);
        },
        Message::FailedUpload(_) => {
            lemma_same_files_keep_wf(state, next);
        },
        _ => {},
    }
}

/// Offering paths leaves the files that are there as they are, adds at most
/// one file per path, and moves the counter on by one for each file added.
pub proof fn lemma_add_paths_extends(state: AppView, paths: Seq<Seq<char>>)
    ensures
        ({
            let next = state.add_paths(paths);
            &&& state.files.len() <= next.files.len() <= state.files.len() + paths.len()
            &&& next.files.take(state.files.len() as int) == state.files
            &&& next.id_counter - state.id_counter == next.files.len() - state.files.len()
            &&& next == AppView { id_counter: next.id_counter, files: next.files, ..state }
        }),
    decreases paths.len(),
{
    let next = state.add_paths(paths);
    if paths.len() == 0 {
        assert(next.files.take(state.files.len() as int) =~= state.files);
    } else {
        lemma_add_paths_extends(state, paths.drop_last());
        let mid = state.add_paths(paths.drop_last());
        assert(mid.files.take(state.files.len() as int) == state.files);
        assert forall|i: int| 0 <= i < state.files.len() implies next.files[i]
            == state.files[i] by {
            assert(mid.files.take(state.files.len() as int)[i] == mid.files[i]);
        }
        assert(next.files.take(state.files.len() as int) =~= state.files);
    }
}

/// Ingestion keeps one file per path: after video paths were offered, each
/// of them is the path of a file, no two files share a path, and no two
/// files share an identifier. The identifiers must not run out.
pub proof fn lemma_one_file_per_path(state: AppView, paths: Seq<Seq<char>>)
    requires
        state.wf(),
        forall|k: int| 0 <= k < paths.len() ==> is_video_path(#[trigger] paths[k]),
        state.id_counter + paths.len() <= u64::MAX,
    ensures
        ({
            let next = state.add_paths(paths);
            &&& next.wf()
            &&& forall|k: int| 0 <= k < paths.len() ==> next.contains_path(#[trigger] paths[k])
            &&& forall|i: int, j: int|
                0 <= i < j < next.files.len() ==> (#[trigger] next.files[i]).path != (
                #[trigger] next.files[j]).path && next.files[i].id != next.files[j].id
        }),
    decreases paths.len(),
{
    let next = state.add_paths(paths);
    lemma_add_paths_keeps_wf(state, paths);
    if paths.len() > 0 {
        let front = paths.drop_last();
        let mid = state.add_paths(front);
        assert forall|k: int| 0 <= k < front.len() implies is_video_path(#[trigger] front[k]) by {
            assert(front[k] == paths[k]);
        }
        lemma_one_file_per_path(state, front);
        lemma_add_paths_extends(state, front);
        assert forall|k: int| 0 <= k < paths.len() implies next.contains_path(
            #[trigger] paths[k],
        ) by {
            if k < front.len() {
                assert(front[k] == paths[k]);
                assert(mid.contains_path(front[k]));
                let i = choose|i: int|
                    0 <= i < mid.files.len() && (#[trigger] mid.files[i]).path == paths[k];
                assert(next.files[i].path == paths[k]);
            } else {
                if mid.contains_path(paths.last()) {
                } else {
                    assert(mid.admits(paths.last()));
                    assert(next.files[mid.files.len() as int].path == paths.last());
                }
            }
        }
    }
}

/// Offering distinct videos that are all new adds exactly one file for
/// each, in their order, with identifiers that count up from the counter.
pub proof fn lemma_new_paths_add_one_file_each(state: AppView, paths: Seq<Seq<char>>)
    requires
        paths.no_duplicates(),
        forall|k: int|
            0 <= k < paths.len() ==> is_video_path(#[trigger] paths[k]) && !state.contains_path(
                paths[k],
            ),
        state.id_counter + paths.len() <= u64::MAX,
    ensures
        ({
            let next = state.add_paths(paths);
            &&& next.files.len() == state.files.len() + paths.len()
            &&& next.id_counter == state.id_counter + paths.len()
            &&& forall|i: int| 0 <= i < state.files.len() ==> next.files[i] == state.files[i]
            &&& forall|k: int|
                0 <= k < paths.len() ==> #[trigger] next.files[state.files.len() + k]
                    == FileView::fresh((state.id_counter + k) as u64, paths[k])
        }),
    decreases paths.len(),
{
    let next = state.add_paths(paths);
    if paths.len() > 0 {
        let front = paths.drop_last();
        let last = paths.last();
        let mid = state.add_paths(front);
        assert forall|k: int| 0 <= k < front.len() implies is_video_path(#[trigger] front[k])
            && !state.contains_path(front[k]) by {
            assert(front[k] == paths[k]);
        }
        lemma_new_paths_add_one_file_each(state, front);
        assert(!mid.contains_path(last)) by {
            if mid.contains_path(last) {
                let i = choose|i: int|
                    0 <= i < mid.files.len() && (#[trigger] mid.files[i]).path == last;
                if i < state.files.len() {
                    assert(state.files[i].path == last);
                    assert(state.contains_path(paths[paths.len() - 1]));
                } else {
                    let k = i - state.files.len();
                    assert(mid.files[state.files.len() + k] == FileView::fresh(
                        (state.id_counter + k) as u64,
                        front[k],
                    ));
                    assert(paths[k] == paths[paths.len() - 1]);
                }
            }
        }
        assert(is_video_path(paths[paths.len() - 1]));
        assert(mid.admits(last));
        assert forall|k: int| 0 <= k < paths.len() implies #[trigger] next.files[state.files.len()
            + k] == FileView::fresh((state.id_counter + k) as u64, paths[k]) by {
            if k < front.len() {
                assert(mid.files[state.files.len() + k] == FileView::fresh(
                    (state.id_counter + k) as u64,
                    front[k],
                ));
            }
        }
    }
}

/// Offering a path that a file already has changes nothing and asks for
/// nothing.
pub proof fn lemma_known_path_changes_nothing(state: AppView, path: Seq<char>)
    requires
        state.contains_path(path),
    ensures
        state.add_path(path) == state,
        state.add_path_commands(path) == Seq::<CommandView>::empty(),
{
}

/// Offering the same path a second time changes nothing and asks for
/// nothing, whatever the first offer did.
pub proof fn lemma_second_offer_changes_nothing(state: AppView, path: Seq<char>)
    ensures
        state.add_path(path).add_path(path) == state.add_path(path),
        state.add_path(path).add_path_commands(path) == Seq::<CommandView>::empty(),
{
    let next = state.add_path(path);
    if state.admits(path) {
        assert(next.files[state.files.len() as int].path == path);
        assert(next.contains_path(path));
    }
}

/// No file is being hashed exactly where the count of such files is zero.
pub proof fn lemma_analyzing_count_zero(files: Seq<FileView>)
    ensures
        analyzing_count(files) == 0 <==> forall|i: int|
            0 <= i < files.len() ==> (#[trigger] files[i]).state != FileState::Analyzing,
    decreases files.len(),
{
    if files.len() > 0 {
        let front = files.drop_last();
        lemma_analyzing_count_zero(front);
        if analyzing_count(files) == 0 {
            assert forall|i: int| 0 <= i < files.len() implies (#[trigger] files[i]).state
                != FileState::Analyzing by {
                if i < front.len() {
                    assert(front[i] == files[i]);
                }
            }
        }
        if forall|i: int|
            0 <= i < files.len() ==> (#[trigger] files[i]).state != FileState::Analyzing {
            assert forall|i: int| 0 <= i < front.len() implies (#[trigger] front[i]).state
                != FileState::Analyzing by {
                assert(front[i] == files[i]);
            }
            assert(files[files.len() - 1].state != FileState::Analyzing);
        }
    }
}

/// Where every file that is being hashed in `after` was being hashed in
/// `before`, no more files are being hashed in `after`.
pub proof fn lemma_analyzing_count_shrinks(before: Seq<FileView>, after: Seq<FileView>)
    requires
        before.len() == after.len(),
        forall|i: int|
            0 <= i < after.len() && (#[trigger] after[i]).state == FileState::Analyzing
                ==> before[i].state == FileState::Analyzing,
    ensures
        analyzing_count(after) <= analyzing_count(before),
    decreases before.len(),
{
    if before.len() > 0 {
        assert forall|i: int|
            0 <= i < after.drop_last().len() && (#[trigger] after.drop_last()[i]).state
                == FileState::Analyzing implies before.drop_last()[i].state
            == FileState::Analyzing by {
            assert(after[i].state == FileState::Analyzing);
        }
        lemma_analyzing_count_shrinks(before.drop_last(), after.drop_last());
        assert(after[after.len() - 1].state == FileState::Analyzing ==> before[before.len()
            - 1].state == FileState::Analyzing);
    }
}

/// Commands of which none is a duplicate check hold no duplicate check.
pub proof fn lemma_no_checks(commands: Seq<CommandView>)
    requires
        forall|k: int| 0 <= k < commands.len() ==> !((#[trigger] commands[k]) is CheckDuplicates),
    ensures
        checks_in(commands) == 0,
    decreases commands.len(),
{
    if commands.len() > 0 {
        assert forall|k: int| 0 <= k < commands.drop_last().len() implies !((
        #[trigger] commands.drop_last()[k]) is CheckDuplicates) by {
            assert(commands.drop_last()[k] == commands[k]);
        }
        lemma_no_checks(commands.drop_last());
        assert(!(commands[commands.len() - 1] is CheckDuplicates));
    }
}

/// A message that offers no paths never adds to the files that are being
/// hashed, and asks for a duplicate check exactly when it takes the last of
/// them out of hashing: then it asks for one.
pub proof fn lemma_check_follows_last_analysis(state: AppView, message: Message)
    requires
        !is_drop(message),
    ensures
        analyzing_count(state.step(message).files) <= analyzing_count(state.files),
        checks_in(state.commands(message)) == if analyzing_count(state.files) > 0
            && analyzing_count(state.step(message).files) == 0 {
            1nat
        } else {
            0nat
        },
{
    let next = state.step(message);
    let commands = state.commands(message);
    lemma_analyzing_count_zero(state.files);
    lemma_analyzing_count_zero(next.files);
    match message {
        Message::FileAnalyzed(id, result) => {
            lemma_analysis_and_checks(state, id, outcome_of(result));
        },
        Message::FileMessage(id, FileMessage::Analyzed(analysis)) => {
            lemma_analysis_and_checks(state, id, Some(analysis.digest()));
        },
        _ => {
            assert(next.files.len() == state.files.len());
            assert forall|i: int| 0 <= i < state.files.len() implies ((
            #[trigger] next.files[i]).state == FileState::Analyzing) == (state.files[i].state
                == FileState::Analyzing) by {}
            lemma_analyzing_count_shrinks(state.files, next.files);
            lemma_analyzing_count_shrinks(next.files, state.files);
            assert forall|k: int| 0 <= k < commands.len() implies !((
            #[trigger] commands[k]) is CheckDuplicates) by {
                match message {
                    Message::StartUpload => {
                        let queued = state.files.filter(in_states(seq![FileState::Queued]));
                        assert(commands[k] == queued[k].reserve_command());
                    },
                    _ => {},
                }
            }
            lemma_no_checks(commands);
        },
    }
}

/// The end of the hashing of a file asks for one duplicate check where it
/// takes the last file out of hashing, and for none where it does not.
proof fn lemma_analysis_and_checks(state: AppView, id: u64, outcome: Option<Seq<u8>>)
    ensures
        analyzing_count(state.file_analyzed(id, outcome).files) <= analyzing_count(state.files),
        checks_in(state.file_analyzed_commands(id, outcome)) == if analyzing_count(state.files)
            > 0 && analyzing_count(state.file_analyzed(id, outcome).files) == 0 {
            1nat
        } else {
            0nat
        },
{
    let next = state.file_analyzed(id, outcome);
    let taken = state.with_analysis(id, outcome);
    let probe = state.with_analysis(id, None);
    let commands = state.file_analyzed_commands(id, outcome);
    lemma_analyzing_count_zero(state.files);
    lemma_analyzing_count_zero(next.files);
    assert forall|i: int| 0 <= i < state.files.len() implies ((#[trigger] next.files[i]).state
        == FileState::Analyzing) == (taken.files[i].state == FileState::Analyzing) && (
    taken.files[i].state == FileState::Analyzing) == (probe.files[i].state
        == FileState::Analyzing) && (taken.files[i].state == FileState::Analyzing) == (
    state.files[i].state == FileState::Analyzing && state.files[i].id != id) by {}
    lemma_analyzing_count_shrinks(state.files, next.files);
    if state.completes_wave(id) {
        assert(checks_in(commands) == 1) by {
            reveal_with_fuel(checks_in, 2);
            assert(commands.last() is CheckDuplicates);
        }
        let i = choose|i: int|
            0 <= i < state.files.len() && (#[trigger] state.files[i]).id == id
                && state.files[i].state == FileState::Analyzing;
        assert(state.files[i].state == FileState::Analyzing);
        assert forall|i: int| 0 <= i < next.files.len() implies (#[trigger] next.files[i]).state
            != FileState::Analyzing by {
            assert(probe.files[i].state != FileState::Analyzing);
        }
    } else {
        assert(checks_in(commands) == 0);
        if analyzing_count(state.files) > 0 && analyzing_count(next.files) == 0 {
            let i = choose|i: int|
                0 <= i < state.files.len() && (#[trigger] state.files[i]).state
                    == FileState::Analyzing;
            assert(next.files[i].state != FileState::Analyzing);
            assert(state.files[i].id == id);
            assert(state.is_analyzing(id));
            assert forall|i: int| 0 <= i < probe.files.len() implies (
            #[trigger] probe.files[i]).state != FileState::Analyzing by {
                assert(next.files[i].state != FileState::Analyzing);
            }
            assert(false);
        }
    }
}

/// A wave has one duplicate check: while no new paths are offered, no check
/// is asked for as long as a file is being hashed, and exactly one has been
/// asked for once the last file has left hashing.
pub proof fn lemma_one_check_per_wave(state: AppView, messages: Seq<Message>)
    requires
        forall|k: int| 0 <= k < messages.len() ==> !is_drop(#[trigger] messages[k]),
    ensures
        analyzing_count(state.run(messages).files) <= analyzing_count(state.files),
        state.checks_issued(messages) == if analyzing_count(state.files) > 0 && analyzing_count(
            state.run(messages).files,
        ) == 0 {
            1nat
        } else {
            0nat
        },
    decreases messages.len(),
{
    if messages.len() > 0 {
        let front = messages.drop_last();
        assert forall|k: int| 0 <= k < front.len() implies !is_drop(#[trigger] front[k]) by {
            assert(front[k] == messages[k]);
        }
        lemma_one_check_per_wave(state, front);
        assert(!is_drop(messages[messages.len() - 1]));
        lemma_check_follows_last_analysis(state.run(front), messages.last());
    }
}

/// A duplicate check asks about a set of fingerprints: the request names
/// each fingerprint of its files, and none twice.
pub proof fn lemma_each_once(list: Seq<Seq<char>>)
    ensures
        each_once(list).no_duplicates(),
        forall|text: Seq<char>|
            #![trigger each_once(list).contains(text)]
            #![trigger list.contains(text)]
            each_once(list).contains(text) <==> list.contains(text),
    decreases list.len(),
{
    if list.len() > 0 {
        let front = list.drop_last();
        let last = list.last();
        lemma_each_once(front);
        let once = each_once(list);
        assert forall|text: Seq<char>| once.contains(text) <==> list.contains(text) by {
            if once.contains(text) {
                let k = choose|k: int| 0 <= k < once.len() && once[k] == text;
                if k < each_once(front).len() {
                    assert(each_once(front)[k] == text);
                    assert(each_once(front).contains(text));
                    let j = choose|j: int| 0 <= j < front.len() && front[j] == text;
                    assert(list[j] == text);
                } else {
                    assert(list[list.len() - 1] == text);
                }
            }
            if list.contains(text) {
                let j = choose|j: int| 0 <= j < list.len() && list[j] == text;
                if j < front.len() {
                    assert(front[j] == text);
                    assert(front.contains(text));
                    let k = choose|k: int|
                        0 <= k < each_once(front).len() && each_once(front)[k] == text;
                    assert(once[k] == text);
                } else if each_once(front).contains(last) {
                } else {
                    assert(once[each_once(front).len() as int] == text);
                }
            }
        }
    }
}

/// The check that a wave asks for covers the wave: each file that the end
/// of the hashing of file `id` takes into the check has its fingerprint in
/// the request, so the answer, or the failure, of that check concerns it.
pub proof fn lemma_wave_covers_its_files(
    state: AppView,
    id: u64,
    outcome: Option<Seq<u8>>,
    i: int,
)
    requires
        state.completes_wave(id),
        0 <= i < state.files.len(),
        state.files[i].state != FileState::CheckingDuplicate,
        state.file_analyzed(id, outcome).files[i].state == FileState::CheckingDuplicate,
    ensures
        state.file_analyzed_commands(id, outcome) == seq![
            CommandView::CheckDuplicates {
                checksums: state.with_analysis(id, outcome).wave_checksums(),
            },
        ],
        state.file_analyzed(id, outcome).files[i].awaits(
            state.with_analysis(id, outcome).wave_checksums(),
        ),
{
    let taken = state.with_analysis(id, outcome);
    let analyzed = in_states(seq![FileState::Analyzed]);
    let sum_of = |file: FileView| file.checksum();
    let listed = taken.files.filter(analyzed).map_values(sum_of);
    let file = taken.files[i];
    assert(file.state == FileState::Analyzed);
    assert(seq![FileState::Analyzed][0] == FileState::Analyzed);
    assert(analyzed(file));
    taken.files.lemma_filter_contains(analyzed, i);
    let k = choose|k: int|
        0 <= k < taken.files.filter(analyzed).len() && taken.files.filter(analyzed)[k] == file;
    assert(listed[k] == file.checksum());
    assert(listed.contains(file.checksum()));
    lemma_each_once(listed);
}

/// The answer to a duplicate check is applied to the files it was asked
/// about and to no others: a file that is being checked and whose
/// fingerprint was part of the request becomes `Duplicate` where the answer
/// names its fingerprint and `Pending` where it does not, with nothing else
/// about it changed; every other file, and so every file that was ingested
/// or hashed after the request was made up, stays as it is.
pub proof fn lemma_answer_concerns_request(
    state: AppView,
    requested: Seq<Seq<char>>,
    duplicates: Seq<Seq<char>>,
)
    ensures
        ({
            let next = state.duplicates_checked(requested, duplicates);
            &&& next == AppView { files: next.files, ..state }
            &&& next.files.len() == state.files.len()
            &&& forall|i: int|
                0 <= i < state.files.len() && !(#[trigger] state.files[i]).awaits(requested)
                    ==> next.files[i] == state.files[i]
            &&& forall|i: int|
                0 <= i < state.files.len() && (#[trigger] state.files[i]).awaits(requested)
                    ==> next.files[i] == FileView {
                    state: if duplicates.contains(state.files[i].checksum()) {
                        FileState::Duplicate
                    } else {
                        FileState::Pending
                    },
                    ..state.files[i]
                }
        }),
{
}

/// The commands that offering paths asks for are all about files with new
/// identifiers.
pub proof fn lemma_new_files_get_new_ids(state: AppView, paths: Seq<Seq<char>>)
    ensures
        forall|k: int|
            0 <= k < state.add_paths_commands(paths).len() ==> ((
            #[trigger] state.add_paths_commands(paths)[k]) is Analyze && state.add_paths_commands(
                paths,
            )[k].file_id().unwrap() >= state.id_counter),
    decreases paths.len(),
{
    if paths.len() > 0 {
        lemma_new_files_get_new_ids(state, paths.drop_last());
        lemma_add_paths_extends(state, paths.drop_last());
    }
}

/// A file that is `Completed`, `Failed` or `Duplicate` is at its end: no
/// message changes anything about it, and no message asks for anything to
/// be done with it.
pub proof fn lemma_terminal_file_stays(state: AppView, message: Message, i: int)
    requires
        state.wf(),
        0 <= i < state.files.len(),
        state.files[i].state.is_terminal(),
    ensures
        i < state.step(message).files.len(),
        state.step(message).files[i] == state.files[i],
        forall|k: int|
            0 <= k < state.commands(message).len() ==> (#[trigger] state.commands(
                message,
            )[k]).file_id() != Some(state.files[i].id),
{
    let next = state.step(message);
    let commands = state.commands(message);
    let file = state.files[i];
    match message {
        Message::EventOccurred(event) => {
            match event {
                Event::FileDropped(paths) => {
                    let cleared = AppView { hovering_with_files: false, ..state };
                    lemma_add_paths_extends(cleared, texts(paths@));
                    lemma_new_files_get_new_ids(cleared, texts(paths@));
                    if state.current_scene == crate::scenes::Scenes::FileIndex {
                        assert(next.files.take(state.files.len() as int)[i] == next.files[i]);
                    }
                },
                _ => {},
            }
        },
        Message::StartUpload => {
            let queued = state.files.filter(in_states(seq![FileState::Queued]));
            assert forall|k: int| 0 <= k < commands.len() implies (
            #[trigger] commands[k]).file_id() != Some(file.id) by {
                assert(commands[k] == queued[k].reserve_command());
                state.files.lemma_filter_pred(in_states(seq![FileState::Queued]), k);
                assert(queued.contains(queued[k]));
                state.files.lemma_filter_contains_rev(
                    in_states(seq![FileState::Queued]),
                    queued[k],
                );
                let j = choose|j: int| 0 <= j < state.files.len() && state.files[j] == queued[k];
                assert(state.files[j].state == FileState::Queued);
                if j < i {
                    assert(state.files[j].id != state.files[i].id);
                } else {
                    assert(state.files[i].id != state.files[j].id);
                }
            }
        },
        Message::UploadReserved(id, slot) => {
            if id == file.id {
                assert forall|j: int| 0 <= j < state.files.len() implies !(
                #[trigger] state.files[j]).uploading_at(id, UploadStep::Reserving) by {
                    if j < i {
                        assert(state.files[j].id != state.files[i].id);
                    } else if i < j {
                        assert(state.files[i].id != state.files[j].id);
                    }
                }
            }
        },
        Message::FileUploaded(id) => {
            if id == file.id {
                assert forall|j: int| 0 <= j < state.files.len() implies !(
                #[trigger] state.files[j]).uploading_at(id, UploadStep::Sending) by {
                    if j < i {
                        assert(state.files[j].id != state.files[i].id);
                    } else if i < j {
                        assert(state.files[i].id != state.files[j].id);
                    }
                }
            }
        },
        _ => {},
    }
}

/// Messages taken in turn keep a valid state valid.
pub proof fn lemma_run_keeps_wf(state: AppView, messages: Seq<Message>)
    requires
        state.wf(),
    ensures
        state.run(messages).wf(),
    decreases messages.len(),
{
    if messages.len() > 0 {
        lemma_run_keeps_wf(state, messages.drop_last());
        lemma_step_keeps_wf(state.run(messages.drop_last()), messages.last());
    }
}

/// A file at its end stays as it is whatever messages follow.
pub proof fn lemma_terminal_file_stays_for_good(state: AppView, messages: Seq<Message>, i: int)
    requires
        state.wf(),
        0 <= i < state.files.len(),
        state.files[i].state.is_terminal(),
    ensures
        i < state.run(messages).files.len(),
        state.run(messages).files[i] == state.files[i],
    decreases messages.len(),
{
    if messages.len() > 0 {
        lemma_terminal_file_stays_for_good(state, messages.drop_last(), i);
        lemma_run_keeps_wf(state, messages.drop_last());
        lemma_terminal_file_stays(state.run(messages.drop_last()), messages.last(), i);
    }
}

/// An upload that fails while the bytes of the file are sent ends in
/// `Failed`: the failure asks for nothing, so the upload is not completed,
/// and whatever messages follow, the file stays `Failed`, never becomes
/// `Completed`, and nothing more is asked for it.
pub proof fn lemma_failed_transfer_is_final(
    state: AppView,
    id: u64,
    i: int,
    later: Seq<Message>,
    next: Message,
)
    requires
        state.wf(),
        0 <= i < state.files.len(),
        state.files[i].uploading_at(id, UploadStep::Sending),
    ensures
        ({
            let failed = state.step(Message::FailedUpload(id));
            let end = failed.run(later);
            &&& state.commands(Message::FailedUpload(id)) == Seq::<CommandView>::empty()
            &&& failed.files[i] == FileView { state: FileState::Failed, ..state.files[i] }
            &&& i < end.files.len()
            &&& end.files[i] == failed.files[i]
            &&& forall|k: int|
                0 <= k < end.commands(next).len() ==> (#[trigger] end.commands(next)[k]).file_id()
                    != Some(id)
        }),
{
    let failed = state.step(Message::FailedUpload(id));
    lemma_step_keeps_wf(state, Message::FailedUpload(id));
    lemma_terminal_file_stays_for_good(failed, later, i);
    lemma_run_keeps_wf(failed, later);
    lemma_terminal_file_stays(failed.run(later), next, i);
}

/// What a message can do to a file: its identifier and its path never
/// change, a fingerprint once set is never changed or cleared, and its state
/// stays or moves along one edge of the lifecycle.
pub proof fn lemma_file_history(state: AppView, message: Message, i: int)
    requires
        state.wf(),
        0 <= i < state.files.len(),
    ensures
        ({
            let before = state.files[i];
            let after = state.step(message).files[i];
            &&& i < state.step(message).files.len()
            &&& after.id == before.id
            &&& after.path == before.path
            &&& before.md5 is Some ==> after.md5 == before.md5
            &&& after.state == before.state || before.state.leads_to(after.state)
        }),
{
    match message {
        Message::EventOccurred(event) => {
            match event {
                Event::FileDropped(paths) => {
                    let cleared = AppView { hovering_with_files: false, ..state };
                    lemma_add_paths_extends(cleared, texts(paths@));
                    if state.current_scene == crate::scenes::Scenes::FileIndex {
                        let next = state.step(message);
                        assert(next.files.take(state.files.len() as int)[i] == next.files[i]);
                    }
                },
                _ => {},
            }
        },
        _ => {},
    }
}

/// A report about the upload of one file leaves every other file as it is.
pub proof fn lemma_upload_report_concerns_one_file(state: AppView, message: Message, i: int)
    requires
        0 <= i < state.files.len(),
        match message {
            Message::UploadReserved(id, _) => state.files[i].id != id,
            Message::FileUploaded(id) => state.files[i].id != id,
            Message::SuccessfulUpload(id) => state.files[i].id != id,
            Message::FailedUpload(id) => state.files[i].id != id,
            _ => false,
        },
    ensures
        state.step(message).files[i] == state.files[i],
{
}

/// The rows counted before a position are the files that the tab shows
/// among those before it.
pub proof fn lemma_rows_count_shown_files(files: Seq<FileView>, filter: Filter, n: int)
    requires
        0 <= n <= files.len(),
    ensures
        files.take(n).filter(in_states(filter.shown_states())).len() == rows_before(
            files,
            filter,
            n,
        ),
    decreases n,
{
    reveal(Seq::filter);
    if n > 0 {
        lemma_rows_count_shown_files(files, filter, n - 1);
        assert(files.take(n).drop_last() =~= files.take(n - 1));
        assert(files.take(n).last() == files[n - 1]);
    } else {
        assert(files.take(0) =~= Seq::<FileView>::empty());
    }
}

/// The row of a file is its place in the list that the tab shows: a file
/// is queued by a selection exactly when the row at which it is shown is
/// selected.
pub proof fn lemma_row_is_place_in_shown_list(state: AppView, i: int)
    requires
        0 <= i < state.files.len(),
        state.current_filter.shows(state.files[i].state),
    ensures
        ({
            let shown = state.files.filter(in_states(state.current_filter.shown_states()));
            let row = rows_before(state.files, state.current_filter, i);
            &&& row < shown.len()
            &&& shown[row as int] == state.files[i]
            &&& state.is_picked(i) == state.file_selection.selects(row as usize)
        }),
{
    let files = state.files;
    let filter = state.current_filter;
    let shows = in_states(filter.shown_states());
    let head = files.take(i + 1);
    let tail = files.skip(i + 1);
    lemma_rows_count_shown_files(files, filter, i);
    assert(files =~= head + tail);
    Seq::filter_distributes_over_add(head, tail, shows);
    assert(head.filter(shows) == files.take(i).filter(shows).push(files[i])) by {
        reveal(Seq::filter);
        assert(head.drop_last() =~= files.take(i));
        assert(head.last() == files[i]);
        assert(shows(files[i]));
    }
}

} // verus!
