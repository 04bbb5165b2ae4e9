//! The coordinator of the pipeline: it owns the files and the session, takes
//! one message at a time, and answers with what is to be done next.

use vstd::prelude::*;
use crate::api::{texts, Config, Upload, User};
use crate::file::{text_of, AnalyzeResult, File, FileMessage, FileState, FileView, UploadStep};
use crate::media::is_video;
use crate::message::{command_views, ButtonState, Command, Event, Filter, KeyCode, Message};
use crate::laws::{lemma_add_path_keeps_wf, lemma_step_keeps_wf};
use crate::model::{each_once, in_states, outcome_of, pending_states, rows_before, AppView};
use crate::scenes::welcome::{WelcomeMessage, WelcomeScene};
use crate::scenes::Scenes;
use crate::selection::FileSelection;

verus! {

/// The files of a list as the contracts speak of them.
pub open spec fn file_views(files: Seq<File>) -> Seq<FileView> {
    files.map_values(|file: File| file@)
}

/// The session: the configuration that the archive accepted, and the
/// identity behind its token. The two come and go together.
#[derive(Debug)]
struct Session {
    config: Config,
    user: User,
}

/// The state of the client.
#[derive(Debug)]
pub struct App {
    id_counter: u64,
    hovering_with_files: bool,
    files: Vec<File>,
    current_filter: Filter,
    // API
    session: Option<Session>,
    // Scenes::Welcome
    welcome_scene: WelcomeScene,
    // Is left shift pressed?
    left_shift: bool,
    // Is left control pressed?
    left_control: bool,
    file_selection: FileSelection,
    tags: String,
}

impl View for App {
    type V = AppView;

    closed spec fn view(&self) -> AppView {
        AppView {
            id_counter: self.id_counter,
            hovering_with_files: self.hovering_with_files,
            files: file_views(self.files@),
            current_filter: self.current_filter,
            current_user: match self.session {
                Some(session) => Some(session.user@),
                None => None,
            },
            current_config: match self.session {
                Some(session) => Some(session.config@),
                None => None,
            },
            current_scene: if self.session is Some {
                Scenes::FileIndex
            } else {
                Scenes::Welcome
            },
            welcome_scene: self.welcome_scene@,
            left_shift: self.left_shift,
            left_control: self.left_control,
            file_selection: self.file_selection@,
            tags: self.tags@,
        }
    }
}

fn has_path(files: &Vec<File>, path: &String) -> (found: bool)
    ensures
        found == exists|i: int|
            0 <= i < files@.len() && (#[trigger] file_views(files@)[i]).path == path@,
{
    let mut i: usize = 0;
    while i < files.len()
        invariant
            i <= files.len(),
            forall|k: int| 0 <= k < i ==> (#[trigger] file_views(files@)[k]).path != path@,
        decreases files.len() - i,
    {
        if files[i].path == *path {
            assert(file_views(files@)[i as int].path == path@);
            return true;
        }
        i += 1;
    }
    false
}

/// No two of the files share an identifier.
pub open spec fn distinct_ids(files: Seq<FileView>) -> bool {
    forall|i: int, j: int|
        0 <= i < j < files.len() ==> (#[trigger] files[i]).id != (#[trigger] files[j]).id
}

fn position_of(files: &Vec<File>, id: u64) -> (position: Option<usize>)
    ensures
        match position {
            Some(i) => i < files@.len() && file_views(files@)[i as int].id == id,
            None => forall|k: int|
                0 <= k < files@.len() ==> (#[trigger] file_views(files@)[k]).id != id,
        },
{
    let mut i: usize = 0;
    while i < files.len()
        invariant
            i <= files.len(),
            forall|k: int| 0 <= k < i ==> (#[trigger] file_views(files@)[k]).id != id,
        decreases files.len() - i,
    {
        if files[i].id == id {
            return Some(i);
        }
        i += 1;
    }
    None
}

fn holds(list: &Vec<String>, text: &String) -> (found: bool)
    ensures
        found == texts(list@).contains(text@),
{
    let mut i: usize = 0;
    while i < list.len()
        invariant
            i <= list.len(),
            forall|k: int| 0 <= k < i ==> (#[trigger] texts(list@)[k]) != text@,
        decreases list.len() - i,
    {
        if list[i] == *text {
            assert(texts(list@)[i as int] == text@);
            return true;
        }
        i += 1;
    }
    false
}

/// Gives the file `id` the outcome of its hashing, where it is being
/// hashed, and says whether it was.
fn apply_analysis(files: &mut Vec<File>, id: u64, result: AnalyzeResult) -> (hit: bool)
    requires
        distinct_ids(file_views(old(files)@)),
    ensures
        file_views(final(files)@) == file_views(old(files)@).map_values(
            |file: FileView| file.after_analysis(id, outcome_of(result)),
        ),
        hit == exists|i: int|
            0 <= i < old(files)@.len() && (#[trigger] file_views(old(files)@)[i]).id == id
                && file_views(old(files)@)[i].state == FileState::Analyzing,
{
    let ghost before = file_views(files@);
    let ghost outcome = outcome_of(result);
    match position_of(files, id) {
        Some(i) => {
            if files[i].state == FileState::Analyzing {
                match result {
                    Ok(analysis) => {
                        files[i].update(FileMessage::Analyzed(analysis));
                    },
                    Err(_) => {
                        files[i].state = FileState::Failed;
                    },
                }
                assert(file_views(files@)[i as int] == before[i as int].after_analysis(
                    id,
                    outcome,
                ));
                assert forall|k: int| 0 <= k < before.len() implies file_views(files@)[k]
                    == before[k].after_analysis(id, outcome) by {
                    if k != i {
                        assert(file_views(files@)[k] == before[k]);
                        assert(before[k].id != before[i as int].id);
                    }
                }
                assert(file_views(files@) =~= before.map_values(
                    |file: FileView| file.after_analysis(id, outcome),
                ));
                assert(before[i as int].id == id);
                true
            } else {
                assert forall|k: int| 0 <= k < before.len() implies before[k]
                    == before[k].after_analysis(id, outcome) by {
                    if k != i {
                        assert(before[k].id != before[i as int].id);
                    }
                }
                assert(file_views(files@) =~= before.map_values(
                    |file: FileView| file.after_analysis(id, outcome),
                ));
                assert forall|k: int| 0 <= k < before.len() implies !((#[trigger] before[k]).id
                    == id && before[k].state == FileState::Analyzing) by {
                    if k != i {
                        assert(before[k].id != before[i as int].id);
                    }
                }
                false
            }
        },
        None => {
            assert(file_views(files@) =~= before.map_values(
                |file: FileView| file.after_analysis(id, outcome),
            ));
            false
        },
    }
}

fn all_left_analyzing(files: &Vec<File>) -> (none: bool)
    ensures
        none == forall|i: int|
            0 <= i < files@.len() ==> (#[trigger] file_views(files@)[i]).state
                != FileState::Analyzing,
{
    let mut i: usize = 0;
    while i < files.len()
        invariant
            i <= files.len(),
            forall|k: int|
                0 <= k < i ==> (#[trigger] file_views(files@)[k]).state != FileState::Analyzing,
        decreases files.len() - i,
    {
        if files[i].state == FileState::Analyzing {
            assert(file_views(files@)[i as int].state == FileState::Analyzing);
            return false;
        }
        i += 1;
    }
    true
}

/// Moves every `Analyzed` file to `CheckingDuplicate` and collects their
/// fingerprints, each once.
fn begin_wave(files: &mut Vec<File>) -> (checksums: Vec<String>)
    ensures
        file_views(final(files)@) == file_views(old(files)@).map_values(
            |file: FileView| file.after_wave(),
        ),
        texts(checksums@) == each_once(
            file_views(old(files)@).filter(in_states(seq![FileState::Analyzed])).map_values(
                |file: FileView| file.checksum(),
            ),
        ),
{
    let ghost before = file_views(files@);
    let ghost analyzed = in_states(seq![FileState::Analyzed]);
    let ghost sum_of = |file: FileView| file.checksum();
    let mut checksums: Vec<String> = Vec::new();
    let mut i: usize = 0;
    proof {
        reveal(Seq::filter);
        assert(before.take(0) =~= Seq::<FileView>::empty());
        assert(before.take(0).filter(analyzed).map_values(sum_of) =~= Seq::<
            Seq<char>,
        >::empty());
        assert(texts(checksums@) =~= Seq::<Seq<char>>::empty());
    }
    while i < files.len()
        invariant
            i <= files.len(),
            files@.len() == before.len(),
            analyzed == in_states(seq![FileState::Analyzed]),
            sum_of == |file: FileView| file.checksum(),
            forall|k: int| 0 <= k < i ==> file_views(files@)[k] == before[k].after_wave(),
            forall|k: int| i <= k < before.len() ==> file_views(files@)[k] == before[k],
            texts(checksums@) == each_once(
                before.take(i as int).filter(analyzed).map_values(sum_of),
            ),
        decreases files.len() - i,
    {
        let ghost sums = texts(checksums@);
        let ghost current = file_views(files@);
        let ghost listed = before.take(i as int).filter(analyzed).map_values(sum_of);
        proof {
            reveal(Seq::filter);
            assert(before.take(i + 1).drop_last() =~= before.take(i as int));
            assert(before.take(i + 1).last() == before[i as int]);
            assert(current[i as int] == before[i as int]);
        }
        if files[i].state == FileState::Analyzed {
            assert(seq![FileState::Analyzed][0] == FileState::Analyzed);
            let checksum = files[i].get_md5();
            proof {
                assert(analyzed(before[i as int]));
                let grown = before.take(i + 1).filter(analyzed).map_values(sum_of);
                assert(grown =~= listed.push(before[i as int].checksum()));
                assert(grown.drop_last() =~= listed);
                assert(grown.last() == checksum@);
            }
            if !holds(&checksums, &checksum) {
                checksums.push(checksum);
                assert(texts(checksums@) =~= sums.push(before[i as int].checksum()));
            }
            files[i].state = FileState::CheckingDuplicate;
        } else {
            proof {
                assert(!analyzed(before[i as int]));
            }
        }
        proof {
            assert forall|k: int| 0 <= k < i + 1 implies file_views(files@)[k]
                == before[k].after_wave() by {
                if k < i {
                    assert(file_views(files@)[k] == current[k]);
                }
            }
            assert forall|k: int| i + 1 <= k < before.len() implies file_views(files@)[k]
                == before[k] by {
                assert(file_views(files@)[k] == current[k]);
            }
        }
        i += 1;
    }
    proof {
        assert(before.take(i as int) =~= before);
        assert(file_views(files@) =~= before.map_values(|file: FileView| file.after_wave()));
    }
    checksums
}

/// Applies the answer to a duplicate check to the files that it concerns.
fn apply_check(files: &mut Vec<File>, requested: &Vec<String>, duplicates: &Vec<String>)
    ensures
        file_views(final(files)@) == file_views(old(files)@).map_values(
            |file: FileView| file.after_check(texts(requested@), texts(duplicates@)),
        ),
{
    let ghost before = file_views(files@);
    let mut i: usize = 0;
    while i < files.len()
        invariant
            i <= files.len(),
            files@.len() == before.len(),
            forall|k: int|
                0 <= k < i ==> file_views(files@)[k] == before[k].after_check(
                    texts(requested@),
                    texts(duplicates@),
                ),
            forall|k: int| i <= k < before.len() ==> file_views(files@)[k] == before[k],
        decreases files.len() - i,
    {
        let ghost current = file_views(files@);
        assert(current[i as int] == before[i as int]);
        if files[i].state == FileState::CheckingDuplicate {
            let file_checksum = files[i].get_md5();
            let part_of_request = holds(requested, &file_checksum);
            let is_duplicate = holds(duplicates, &file_checksum);
            if part_of_request {
                if is_duplicate {
                    files[i].state = FileState::Duplicate;
                } else {
                    files[i].state = FileState::Pending;
                }
            }
        }
        proof {
            assert forall|k: int| 0 <= k < i + 1 implies file_views(files@)[k]
                == before[k].after_check(texts(requested@), texts(duplicates@)) by {
                if k < i {
                    assert(file_views(files@)[k] == current[k]);
                }
            }
            assert forall|k: int| i + 1 <= k < before.len() implies file_views(files@)[k]
                == before[k] by {
                assert(file_views(files@)[k] == current[k]);
            }
        }
        i += 1;
    }
    assert(file_views(files@) =~= before.map_values(
        |file: FileView| file.after_check(texts(requested@), texts(duplicates@)),
    ));
}

/// Takes the files of a failed duplicate check back to `Analyzed`.
fn revert_check(files: &mut Vec<File>, requested: &Vec<String>)
    ensures
        file_views(final(files)@) == file_views(old(files)@).map_values(
            |file: FileView| file.after_failed_check(texts(requested@)),
        ),
{
    let ghost before = file_views(files@);
    let mut i: usize = 0;
    while i < files.len()
        invariant
            i <= files.len(),
            files@.len() == before.len(),
            forall|k: int|
                0 <= k < i ==> file_views(files@)[k] == before[k].after_failed_check(
                    texts(requested@),
                ),
            forall|k: int| i <= k < before.len() ==> file_views(files@)[k] == before[k],
        decreases files.len() - i,
    {
        let ghost current = file_views(files@);
        assert(current[i as int] == before[i as int]);
        if files[i].state == FileState::CheckingDuplicate {
            let file_checksum = files[i].get_md5();
            if holds(requested, &file_checksum) {
                files[i].state = FileState::Analyzed;
            }
        }
        proof {
            assert forall|k: int| 0 <= k < i + 1 implies file_views(files@)[k]
                == before[k].after_failed_check(texts(requested@)) by {
                if k < i {
                    assert(file_views(files@)[k] == current[k]);
                }
            }
            assert forall|k: int| i + 1 <= k < before.len() implies file_views(files@)[k]
                == before[k] by {
                assert(file_views(files@)[k] == current[k]);
            }
        }
        i += 1;
    }
    assert(file_views(files@) =~= before.map_values(
        |file: FileView| file.after_failed_check(texts(requested@)),
    ));
}

/// Queues the `Pending` files whose rows under `filter` are selected.
fn enqueue_selected(
    files: &mut Vec<File>,
    filter: Filter,
    selection: &FileSelection,
    tags: &String,
)
    ensures
        final(files)@.len() == old(files)@.len(),
        forall|i: int|
            0 <= i < old(files)@.len() ==> #[trigger] file_views(final(files)@)[i] == if filter.shows(
                file_views(old(files)@)[i].state,
            ) && selection@.selects(rows_before(file_views(old(files)@), filter, i) as usize)
                && file_views(old(files)@)[i].state == FileState::Pending {
                file_views(old(files)@)[i].queued_with(tags@)
            } else {
                file_views(old(files)@)[i]
            },
{
    let ghost before = file_views(files@);
    let mut row: usize = 0;
    let mut i: usize = 0;
    while i < files.len()
        invariant
            i <= files.len(),
            files@.len() == before.len(),
            row == rows_before(before, filter, i as int),
            row <= i,
            forall|k: int|
                0 <= k < i ==> #[trigger] file_views(files@)[k] == if filter.shows(before[k].state)
                    && selection@.selects(rows_before(before, filter, k) as usize)
                    && before[k].state == FileState::Pending {
                    before[k].queued_with(tags@)
                } else {
                    before[k]
                },
            forall|k: int| i <= k < before.len() ==> file_views(files@)[k] == before[k],
        decreases files.len() - i,
    {
        let ghost current = file_views(files@);
        assert(current[i as int] == before[i as int]);
        if filter.includes(files[i].state) {
            if selection.contains(row) && files[i].state == FileState::Pending {
                files[i].tags = tags.clone();
                files[i].state = FileState::Queued;
            }
            row += 1;
        }
        proof {
            assert forall|k: int| 0 <= k < i + 1 implies #[trigger] file_views(files@)[k]
                == if filter.shows(before[k].state) && selection@.selects(
                rows_before(before, filter, k) as usize,
            ) && before[k].state == FileState::Pending {
                before[k].queued_with(tags@)
            } else {
                before[k]
            } by {
                if k < i {
                    assert(file_views(files@)[k] == current[k]);
                }
            }
            assert forall|k: int| i + 1 <= k < before.len() implies file_views(files@)[k]
                == before[k] by {
                assert(file_views(files@)[k] == current[k]);
            }
        }
        i += 1;
    }
}

/// Moves every `Queued` file to `Uploading` and asks for its slot.
fn start_uploads(files: &mut Vec<File>) -> (commands: Vec<Command>)
    ensures
        file_views(final(files)@) == file_views(old(files)@).map_values(
            |file: FileView| file.after_start(),
        ),
        command_views(commands@) == file_views(old(files)@).filter(
            in_states(seq![FileState::Queued]),
        ).map_values(|file: FileView| file.reserve_command()),
{
    let ghost before = file_views(files@);
    let ghost queued = in_states(seq![FileState::Queued]);
    let mut commands: Vec<Command> = Vec::new();
    let mut i: usize = 0;
    proof {
        reveal(Seq::filter);
        assert(before.take(0) =~= Seq::<FileView>::empty());
        assert(command_views(commands@) =~= before.take(0).filter(queued).map_values(
            |file: FileView| file.reserve_command(),
        ));
    }
    while i < files.len()
        invariant
            i <= files.len(),
            files@.len() == before.len(),
            queued == in_states(seq![FileState::Queued]),
            forall|k: int| 0 <= k < i ==> file_views(files@)[k] == before[k].after_start(),
            forall|k: int| i <= k < before.len() ==> file_views(files@)[k] == before[k],
            command_views(commands@) == before.take(i as int).filter(queued).map_values(
                |file: FileView| file.reserve_command(),
            ),
        decreases files.len() - i,
    {
        let ghost asked = command_views(commands@);
        let ghost current = file_views(files@);
        proof {
            reveal(Seq::filter);
            assert(before.take(i + 1).drop_last() =~= before.take(i as int));
            assert(before.take(i + 1).last() == before[i as int]);
            assert(current[i as int] == before[i as int]);
        }
        if files[i].state == FileState::Queued {
            assert(seq![FileState::Queued][0] == FileState::Queued);
            commands.push(
                Command::ReserveUpload {
                    id: files[i].id,
                    path: files[i].path.clone(),
                    md5: files[i].get_md5(),
                },
            );
            files[i].state = FileState::Uploading;
            files[i].step = UploadStep::Reserving;
            proof {
                assert(queued(before[i as int]));
                assert(command_views(commands@) =~= asked.push(
                    before[i as int].reserve_command(),
                ));
                assert(command_views(commands@) =~= before.take(i + 1).filter(queued).map_values(
                    |file: FileView| file.reserve_command(),
                ));
            }
        } else {
            proof {
                assert(!queued(before[i as int]));
            }
        }
        proof {
            assert forall|k: int| 0 <= k < i + 1 implies file_views(files@)[k]
                == before[k].after_start() by {
                if k < i {
                    assert(file_views(files@)[k] == current[k]);
                }
            }
            assert forall|k: int| i + 1 <= k < before.len() implies file_views(files@)[k]
                == before[k] by {
                assert(file_views(files@)[k] == current[k]);
            }
        }
        i += 1;
    }
    proof {
        assert(before.take(i as int) =~= before);
        assert(file_views(files@) =~= before.map_values(|file: FileView| file.after_start()));
    }
    commands
}

/// The position of the file `id` where it is uploading at `step`.
fn uploading_position(files: &Vec<File>, id: u64, step: UploadStep) -> (position: Option<usize>)
    requires
        distinct_ids(file_views(files@)),
    ensures
        match position {
            Some(i) => i < files@.len() && file_views(files@)[i as int].uploading_at(id, step),
            None => forall|k: int|
                0 <= k < files@.len() ==> !(#[trigger] file_views(files@)[k]).uploading_at(
                    id,
                    step,
                ),
        },
{
    match position_of(files, id) {
        Some(i) => {
            if files[i].state == FileState::Uploading && files[i].step == step {
                Some(i)
            } else {
                assert forall|k: int| 0 <= k < files@.len() implies !(#[trigger] file_views(
                    files@,
                )[k]).uploading_at(id, step) by {
                    if k != i {
                        assert(file_views(files@)[k].id != file_views(files@)[i as int].id);
                    }
                }
                None
            }
        },
        None => None,
    }
}

/// The files behind a list of references as the contracts speak of them.
pub open spec fn ref_views(files: Seq<&File>) -> Seq<FileView> {
    files.map_values(|file: &File| file@)
}

fn state_listed(states: &Vec<FileState>, state: FileState) -> (listed: bool)
    ensures
        listed == states@.contains(state),
{
    let mut i: usize = 0;
    while i < states.len()
        invariant
            i <= states.len(),
            forall|k: int| 0 <= k < i ==> states@[k] != state,
        decreases states.len() - i,
    {
        if states[i] == state {
            assert(states@[i as int] == state);
            return true;
        }
        i += 1;
    }
    false
}

/// The files that are in one of `states`, in their order.
fn files_in<'a>(files: &'a Vec<File>, states: &Vec<FileState>) -> (found: Vec<&'a File>)
    ensures
        ref_views(found@) == file_views(files@).filter(in_states(states@)),
{
    let ghost all = file_views(files@);
    let ghost listed = in_states(states@);
    let mut found: Vec<&'a File> = Vec::new();
    let mut i: usize = 0;
    proof {
        reveal(Seq::filter);
        assert(all.take(0) =~= Seq::<FileView>::empty());
        assert(ref_views(found@) =~= all.take(0).filter(listed));
    }
    while i < files.len()
        invariant
            i <= files.len(),
            all == file_views(files@),
            listed == in_states(states@),
            ref_views(found@) == all.take(i as int).filter(listed),
        decreases files.len() - i,
    {
        let ghost so_far = ref_views(found@);
        proof {
            reveal(Seq::filter);
            assert(all.take(i + 1).drop_last() =~= all.take(i as int));
            assert(all.take(i + 1).last() == all[i as int]);
        }
        if state_listed(states, files[i].state) {
            found.push(&files[i]);
            assert(ref_views(found@) =~= so_far.push(all[i as int]));
        }
        i += 1;
    }
    assert(all.take(i as int) =~= all);
    found
}

impl App {
    /// Every client is in a state that the pipeline can be in.
    #[verifier::type_invariant]
    closed spec fn valid(&self) -> bool {
        self@.wf()
    }

    /// Whether the state is one that the pipeline can be in. It is, of every
    /// client.
    pub open spec fn wf(&self) -> bool {
        self@.wf()
    }

    /// The client at its start. With a stored token it asks for the identity
    /// behind it; without one it asks for nothing.
    pub fn new(api_key: Option<String>) -> (start: (App, Vec<Command>))
        ensures
            start.0@ == AppView::initial(),
            start.0.wf(),
            command_views(start.1@) == AppView::start_commands_for(text_of(api_key)),
    {
        let mut commands: Vec<Command> = Vec::new();
        match api_key {
            Some(key) => {
                commands.push(Command::GetUser { config: Config::new(key) });
            },
            None => {},
        }
        let files: Vec<File> = Vec::new();
        assert(file_views(files@) =~= Seq::<FileView>::empty());
        let app = App {
            id_counter: 0,
            hovering_with_files: false,
            files,
            current_filter: Filter::default(),
            session: None,
            welcome_scene: WelcomeScene::default(),
            left_shift: false,
            left_control: false,
            file_selection: FileSelection::default(),
            tags: String::new(),
        };
        assert(command_views(commands@) =~= AppView::start_commands_for(text_of(api_key)));
        (app, commands)
    }

    /// Says what holds of every client: its state is valid.
    pub fn validity(&self)
        ensures
            self.wf(),
    {
        proof {
            use_type_invariant(self);
        }
    }

    /// The title of the window.
    pub fn title(&self) -> (title: String)
        ensures
            title@ == "mx"@,
    {
        "mx".to_owned()
    }

    fn get_id(&mut self) -> (id: u64)
        requires
            old(self).id_counter < u64::MAX,
        ensures
            id == old(self).id_counter,
            final(self)@ == (AppView { id_counter: (id + 1) as u64, ..old(self)@ }),
    {
        proof {
            use_type_invariant(&*self);
        }
        let id = self.id_counter;
        self.id_counter = id + 1;
        id
    }

    /// Takes the files out, to work on them; `put_files` brings them back.
    fn take_files(&mut self) -> (files: Vec<File>)
        ensures
            file_views(files@) == old(self)@.files,
            final(self)@ == (AppView { files: Seq::empty(), ..old(self)@ }),
    {
        proof {
            use_type_invariant(&*self);
        }
        let mut files: Vec<File> = Vec::new();
        assert(file_views(files@) =~= Seq::<FileView>::empty());
        std::mem::swap(&mut self.files, &mut files);
        files
    }

    /// Puts the files back in their place.
    fn put_files(&mut self, files: Vec<File>)
        requires
            (AppView { files: file_views(files@), ..old(self)@ }).wf(),
        ensures
            final(self)@ == (AppView { files: file_views(files@), ..old(self)@ }),
    {
        self.files = files;
    }

    /// Whether a file with this path was ingested.
    pub fn contains_path(&self, path: &String) -> (found: bool)
        ensures
            found == self@.contains_path(path@),
    {
        has_path(&self.files, path)
    }

    /// Offers a path for ingestion. A video whose path is new is taken in as
    /// a file with the next identifier, and its hashing is asked for. Any
    /// other path, and any path once the identifiers are used up, changes
    /// nothing.
    pub fn add_path(&mut self, path: String) -> (commands: Vec<Command>)
        ensures
            final(self).wf(),
            final(self)@ == old(self)@.add_path(path@),
            command_views(commands@) == old(self)@.add_path_commands(path@),
    {
        proof {
            use_type_invariant(&*self);
            lemma_add_path_keeps_wf(self@, path@);
        }
        let mut commands: Vec<Command> = Vec::new();
        if is_video(path.as_str()) && !self.contains_path(&path) && self.id_counter < u64::MAX {
            let id = self.get_id();
            commands.push(Command::Analyze { id, path: path.clone() });
            let mut files = self.take_files();
            files.push(File::new(id, path));
            assert(file_views(files@) =~= old(self)@.files.push(FileView::fresh(id, path@)));
            self.put_files(files);
        }
        assert(command_views(commands@) =~= old(self)@.add_path_commands(path@));
        commands
    }

    /// Offers each of `paths` for ingestion, in turn.
    pub fn add_paths(&mut self, paths: &Vec<String>) -> (commands: Vec<Command>)
        ensures
            final(self).wf(),
            final(self)@ == old(self)@.add_paths(texts(paths@)),
            command_views(commands@) == old(self)@.add_paths_commands(texts(paths@)),
    {
        let mut commands: Vec<Command> = Vec::new();
        let ghost all = texts(paths@);
        let mut i: usize = 0;
        assert(all.take(0) =~= Seq::<Seq<char>>::empty());
        assert(command_views(commands@) =~= Seq::empty());
        while i < paths.len()
            invariant
                i <= paths.len(),
                all == texts(paths@),
                self@ == old(self)@.add_paths(all.take(i as int)),
                command_views(commands@) == old(self)@.add_paths_commands(all.take(i as int)),
            decreases paths.len() - i,
        {
            let ghost before = commands@;
            let mut more = self.add_path(paths[i].clone());
            let ghost added = more@;
            commands.append(&mut more);
            proof {
                assert(all.take(i + 1).drop_last() =~= all.take(i as int));
                assert(all.take(i + 1).last() == all[i as int]);
                assert(command_views(commands@) =~= command_views(before) + command_views(
                    added,
                ));
            }
            i += 1;
        }
        proof {
            assert(all.take(i as int) =~= all);
            use_type_invariant(&*self);
        }
        commands
    }

    /// Handles the end of the hashing of file `id`.
    fn file_analyzed(&mut self, id: u64, result: AnalyzeResult) -> (commands: Vec<Command>)
        requires
            old(self)@.file_analyzed(id, outcome_of(result)).wf(),
        ensures
            final(self)@ == old(self)@.file_analyzed(id, outcome_of(result)),
            command_views(commands@) == old(self)@.file_analyzed_commands(id, outcome_of(result)),
    {
        proof {
            use_type_invariant(&*self);
        }
        let ghost before = self@;
        let ghost outcome = outcome_of(result);
        let mut commands: Vec<Command> = Vec::new();
        let mut files = self.take_files();
        let hit = apply_analysis(&mut files, id, result);
        assert(file_views(files@) == before.with_analysis(id, outcome).files);
        assert(hit == before.is_analyzing(id));
        proof {
            let with_digest = before.with_analysis(id, outcome);
            let without_digest = before.with_analysis(id, None);
            assert forall|i: int| 0 <= i < before.files.len() implies ((
            #[trigger] with_digest.files[i]).state != FileState::Analyzing) == (
            without_digest.files[i].state != FileState::Analyzing) by {}
            assert(with_digest.none_analyzing() == without_digest.none_analyzing()) by {
                if with_digest.none_analyzing() {
                    assert forall|i: int| 0 <= i < without_digest.files.len() implies (
                    #[trigger] without_digest.files[i]).state != FileState::Analyzing by {
                        assert(with_digest.files[i].state != FileState::Analyzing);
                    }
                }
                if without_digest.none_analyzing() {
                    assert forall|i: int| 0 <= i < with_digest.files.len() implies (
                    #[trigger] with_digest.files[i]).state != FileState::Analyzing by {
                        assert(without_digest.files[i].state != FileState::Analyzing);
                    }
                }
            }
        }
        if hit && all_left_analyzing(&files) {
            let checksums = begin_wave(&mut files);
            commands.push(Command::CheckDuplicates { checksums });
        }
        assert(command_views(commands@) =~= before.file_analyzed_commands(id, outcome));
        assert(file_views(files@) == before.file_analyzed(id, outcome).files);
        self.put_files(files);
        commands
    }

    /// Handles the answer to a duplicate check.
    fn duplicates_checked(&mut self, requested: &Vec<String>, duplicates: &Vec<String>)
        requires
            old(self)@.duplicates_checked(texts(requested@), texts(duplicates@)).wf(),
        ensures
            final(self)@ == old(self)@.duplicates_checked(texts(requested@), texts(duplicates@)),
    {
        let mut files = self.take_files();
        apply_check(&mut files, requested, duplicates);
        self.put_files(files);
    }

    /// Handles the failure of a duplicate check.
    fn duplicate_check_failed(&mut self, requested: &Vec<String>)
        requires
            old(self)@.duplicate_check_failed(texts(requested@)).wf(),
        ensures
            final(self)@ == old(self)@.duplicate_check_failed(texts(requested@)),
    {
        let mut files = self.take_files();
        revert_check(&mut files, requested);
        self.put_files(files);
    }

    /// Queues the selected files.
    fn enqueue(&mut self)
        requires
            old(self)@.enqueued().wf(),
        ensures
            final(self)@ == old(self)@.enqueued(),
    {
        let mut files = self.take_files();
        enqueue_selected(&mut files, self.current_filter, &self.file_selection, &self.tags);
        assert(file_views(files@) =~= old(self)@.enqueued().files);
        self.put_files(files);
    }

    /// Starts the upload of the queued files.
    fn start_upload(&mut self) -> (commands: Vec<Command>)
        requires
            old(self)@.uploads_started().wf(),
        ensures
            final(self)@ == old(self)@.uploads_started(),
            command_views(commands@) == old(self)@.start_commands(),
    {
        let mut files = self.take_files();
        let commands = start_uploads(&mut files);
        self.put_files(files);
        commands
    }

    /// Notes the slot reserved for file `id` and asks for its bytes to be
    /// sent.
    fn upload_reserved(&mut self, id: u64, upload: Upload) -> (commands: Vec<Command>)
        requires
            old(self)@.upload_reserved(id, upload@).wf(),
        ensures
            final(self)@ == old(self)@.upload_reserved(id, upload@),
            command_views(commands@) == old(self)@.upload_reserved_commands(id, upload@),
    {
        proof {
            use_type_invariant(&*self);
        }
        let ghost before = self@;
        let mut commands: Vec<Command> = Vec::new();
        let mut files = self.take_files();
        match uploading_position(&files, id, UploadStep::Reserving) {
            Some(i) => {
                commands.push(
                    Command::UploadFile {
                        id,
                        path: files[i].path.clone(),
                        url: upload.url.clone(),
                    },
                );
                files[i].remote_id = Some(upload.id);
                files[i].remote_upload_url = Some(upload.url);
                files[i].step = UploadStep::Sending;
                proof {
                    assert(before.files[i as int].uploading_at(id, UploadStep::Reserving));
                    let chosen = before.uploading_position(id, UploadStep::Reserving).unwrap();
                    assert(chosen == i) by {
                        if chosen != i {
                            assert(before.files[chosen].id == before.files[i as int].id);
                        }
                    }
                    assert forall|k: int| 0 <= k < before.files.len() implies file_views(
                        files@,
                    )[k] == before.files[k].after_reservation(id, upload@) by {
                        if k != i {
                            assert(before.files[k].id != before.files[i as int].id);
                        }
                    }
                }
            },
            None => {},
        }
        assert(file_views(files@) =~= before.upload_reserved(id, upload@).files);
        assert(command_views(commands@) =~= before.upload_reserved_commands(id, upload@));
        self.put_files(files);
        commands
    }

    /// Notes that the bytes of file `id` were sent and asks for the upload
    /// to be completed.
    fn file_uploaded(&mut self, id: u64) -> (commands: Vec<Command>)
        requires
            old(self)@.file_uploaded(id).wf(),
        ensures
            final(self)@ == old(self)@.file_uploaded(id),
            command_views(commands@) == old(self)@.file_uploaded_commands(id),
    {
        proof {
            use_type_invariant(&*self);
        }
        let ghost before = self@;
        let mut commands: Vec<Command> = Vec::new();
        let mut files = self.take_files();
        match uploading_position(&files, id, UploadStep::Sending) {
            Some(i) => {
                proof {
                    assert(before.files[i as int].uploading_at(id, UploadStep::Sending));
                    assert(before.files[i as int].wf());
                    let chosen = before.uploading_position(id, UploadStep::Sending).unwrap();
                    assert(chosen == i) by {
                        if chosen != i {
                            assert(before.files[chosen].id == before.files[i as int].id);
                        }
                    }
                }
                match &files[i].remote_id {
                    Some(remote_id) => {
                        commands.push(
                            Command::FinalizeUpload {
                                id,
                                remote_id: remote_id.clone(),
                                tags: files[i].tags.clone(),
                                source: files[i].source.clone(),
                                description: files[i].description.clone(),
                            },
                        );
                    },
                    None => {},
                }
                files[i].step = UploadStep::Finalizing;
                proof {
                    assert forall|k: int| 0 <= k < before.files.len() implies file_views(
                        files@,
                    )[k] == before.files[k].after_transfer(id) by {
                        if k != i {
                            assert(before.files[k].id != before.files[i as int].id);
                        }
                    }
                }
            },
            None => {},
        }
        assert(file_views(files@) =~= before.file_uploaded(id).files);
        assert(command_views(commands@) =~= before.file_uploaded_commands(id));
        self.put_files(files);
        commands
    }

    /// Notes that the upload of file `id` was completed.
    fn upload_succeeded(&mut self, id: u64)
        requires
            old(self)@.upload_succeeded(id).wf(),
        ensures
            final(self)@ == old(self)@.upload_succeeded(id),
    {
        proof {
            use_type_invariant(&*self);
        }
        let ghost before = self@;
        let mut files = self.take_files();
        match uploading_position(&files, id, UploadStep::Finalizing) {
            Some(i) => {
                files[i].state = FileState::Completed;
                proof {
                    assert forall|k: int| 0 <= k < before.files.len() implies file_views(
                        files@,
                    )[k] == before.files[k].after_completion(id) by {
                        if k != i {
                            assert(before.files[k].id != before.files[i as int].id);
                        }
                    }
                }
            },
            None => {},
        }
        assert(file_views(files@) =~= before.upload_succeeded(id).files);
        self.put_files(files);
    }

    /// Notes that a part of the upload of file `id` failed.
    fn upload_failed(&mut self, id: u64)
        requires
            old(self)@.upload_failed(id).wf(),
        ensures
            final(self)@ == old(self)@.upload_failed(id),
    {
        proof {
            use_type_invariant(&*self);
        }
        let ghost before = self@;
        let mut files = self.take_files();
        match position_of(&files, id) {
            Some(i) => {
                if files[i].state == FileState::Uploading {
                    files[i].state = FileState::Failed;
                }
                proof {
                    assert forall|k: int| 0 <= k < before.files.len() implies file_views(
                        files@,
                    )[k] == before.files[k].after_failure(id) by {
                        if k != i {
                            assert(before.files[k].id != before.files[i as int].id);
                        }
                    }
                }
            },
            None => {},
        }
        assert(file_views(files@) =~= before.upload_failed(id).files);
        self.put_files(files);
    }

    /// Hands a message to the welcome screen.
    fn welcome_message(&mut self, message: WelcomeMessage) -> (commands: Vec<Command>)
        ensures
            final(self)@ == (AppView {
                welcome_scene: old(self)@.welcome_scene.updated(message),
                ..old(self)@
            }),
            command_views(commands@) == old(self)@.welcome_scene.commands(message),
    {
        proof {
            use_type_invariant(&*self);
        }
        let mut scene = WelcomeScene::default();
        std::mem::swap(&mut self.welcome_scene, &mut scene);
        let commands = scene.update(message);
        self.welcome_scene = scene;
        commands
    }

    /// Handles what happened at the window.
    fn event_occurred(&mut self, event: Event) -> (commands: Vec<Command>)
        ensures
            final(self)@ == old(self)@.event_occurred(event),
            command_views(commands@) == old(self)@.event_commands(event),
    {
        proof {
            use_type_invariant(&*self);
        }
        let mut commands: Vec<Command> = Vec::new();
        match event {
            Event::FileHovered => {
                self.hovering_with_files = true;
            },
            Event::FilesHoveredLeft => {
                self.hovering_with_files = false;
            },
            Event::FileDropped(paths) => {
                if self.current_scene() == Scenes::FileIndex {
                    self.hovering_with_files = false;
                    commands = self.add_paths(&paths);
                }
            },
            Event::Keyboard { key_code, state } => {
                if key_code == KeyCode::LShift {
                    match state {
                        ButtonState::Pressed => {
                            self.left_shift = true;
                        },
                        ButtonState::Released => {
                            self.left_shift = false;
                        },
                    }
                } else if key_code == KeyCode::LControl {
                    match state {
                        ButtonState::Pressed => {
                            self.left_control = true;
                        },
                        ButtonState::Released => {
                            self.left_control = false;
                        },
                    }
                }
            },
            Event::Other => {},
        }
        assert(command_views(commands@) =~= old(self)@.event_commands(event));
        commands
    }

    /// Takes one message: the state moves on as the message says, and the
    /// result lists what the caller is to do, in order.
    pub fn update(&mut self, message: Message) -> (commands: Vec<Command>)
        ensures
            final(self).wf(),
            final(self)@ == old(self)@.step(message),
            command_views(commands@) == old(self)@.commands(message),
    {
        proof {
            use_type_invariant(&*self);
            lemma_step_keeps_wf(self@, message);
        }
        let mut commands: Vec<Command> = Vec::new();
        assert(command_views(commands@) =~= Seq::empty());
        match message {
            Message::EventOccurred(event) => {
                commands = self.event_occurred(event);
            },
            Message::FileAnalyzed(id, result) => {
                commands = self.file_analyzed(id, result);
            },
            Message::Noop => {},
            Message::FileMessage(id, message) => {
                match message {
                    FileMessage::Analyzed(analysis) => {
                        commands = self.file_analyzed(id, Ok(analysis));
                    },
                }
            },
            Message::WelcomeMessage(msg) => {
                commands = self.welcome_message(msg);
            },
            Message::SetConfigAndUser(config, user) => {
                commands.push(Command::WriteApiKey { key: config.api_token.clone() });
                self.session = Some(Session { config, user });
                assert(command_views(commands@) =~= old(self)@.commands(message));
            },
            Message::DuplicateCheckResponse(checksums, duplicate_checksums) => {
                self.duplicates_checked(&checksums, &duplicate_checksums);
            },
            Message::DuplicateCheckFailed(checksums) => {
                self.duplicate_check_failed(&checksums);
            },
            Message::SetFilter(filter) => {
                self.current_filter = filter;
                self.file_selection = FileSelection::Empty;
            },
            Message::SelectFile(selected_idx) => {
                let next = self.file_selection.select(
                    selected_idx,
                    self.left_shift,
                    self.left_control,
                );
                self.file_selection = next;
            },
            Message::SetTags(tags) => {
                self.tags = tags;
            },
            Message::Enqueue => {
                self.enqueue();
            },
            Message::StartUpload => {
                commands = self.start_upload();
            },
            Message::UploadReserved(id, upload) => {
                commands = self.upload_reserved(id, upload);
            },
            Message::FileUploaded(id) => {
                commands = self.file_uploaded(id);
            },
            Message::SuccessfulUpload(id) => {
                self.upload_succeeded(id);
            },
            Message::FailedUpload(id) => {
                self.upload_failed(id);
            },
        };
        proof {
            use_type_invariant(&*self);
        }
        commands
    }

    /// The files that count as pending in the summary of the file list:
    /// those that are hashed, checked, waiting for the user, or uploading.
    pub fn pending(&self) -> (found: Vec<&File>)
        ensures
            ref_views(found@) == self@.files.filter(in_states(pending_states())),
    {
        let mut states: Vec<FileState> = Vec::new();
        states.push(FileState::Analyzing);
        states.push(FileState::Analyzed);
        states.push(FileState::Pending);
        states.push(FileState::CheckingDuplicate);
        states.push(FileState::Uploading);
        assert(states@ =~= pending_states());
        files_in(&self.files, &states)
    }

    /// The files that the archive already holds.
    pub fn duplicate(&self) -> (found: Vec<&File>)
        ensures
            ref_views(found@) == self@.files.filter(in_states(seq![FileState::Duplicate])),
    {
        let mut states: Vec<FileState> = Vec::new();
        states.push(FileState::Duplicate);
        assert(states@ =~= seq![FileState::Duplicate]);
        files_in(&self.files, &states)
    }

    /// The files whose upload was completed.
    pub fn completed(&self) -> (found: Vec<&File>)
        ensures
            ref_views(found@) == self@.files.filter(in_states(seq![FileState::Completed])),
    {
        let mut states: Vec<FileState> = Vec::new();
        states.push(FileState::Completed);
        assert(states@ =~= seq![FileState::Completed]);
        files_in(&self.files, &states)
    }

    /// The files whose hashing or upload failed.
    pub fn failed(&self) -> (found: Vec<&File>)
        ensures
            ref_views(found@) == self@.files.filter(in_states(seq![FileState::Failed])),
    {
        let mut states: Vec<FileState> = Vec::new();
        states.push(FileState::Failed);
        assert(states@ =~= seq![FileState::Failed]);
        files_in(&self.files, &states)
    }

    /// The files that wait for the uploads to be started.
    pub fn queued(&self) -> (found: Vec<&File>)
        ensures
            ref_views(found@) == self@.files.filter(in_states(seq![FileState::Queued])),
    {
        let mut states: Vec<FileState> = Vec::new();
        states.push(FileState::Queued);
        assert(states@ =~= seq![FileState::Queued]);
        files_in(&self.files, &states)
    }

    /// The files that the chosen tab shows, in the order of its rows.
    pub fn visible(&self) -> (found: Vec<&File>)
        ensures
            ref_views(found@) == self@.files.filter(
                in_states(self@.current_filter.shown_states()),
            ),
    {
        let states = self.current_filter.states();
        files_in(&self.files, &states)
    }

    /// All files, in the order of their ingestion.
    pub fn files(&self) -> (files: &Vec<File>)
        ensures
            file_views(files@) == self@.files,
    {
        &self.files
    }

    /// The tab that is shown.
    pub fn current_filter(&self) -> (filter: Filter)
        ensures
            filter == self@.current_filter,
    {
        self.current_filter
    }

    /// The screen that is shown: the file list once there is a session, the
    /// welcome screen before.
    pub fn current_scene(&self) -> (scene: Scenes)
        ensures
            scene == self@.current_scene,
    {
        match &self.session {
            Some(_) => Scenes::FileIndex,
            None => Scenes::Welcome,
        }
    }

    /// The identity of the session, once there is one.
    pub fn current_user(&self) -> (user: Option<&User>)
        ensures
            match user {
                Some(known) => self@.current_user == Some(known@),
                None => self@.current_user is None,
            },
    {
        match &self.session {
            Some(session) => Some(&session.user),
            None => None,
        }
    }

    /// The configuration of the session, once there is one.
    pub fn current_config(&self) -> (config: Option<&Config>)
        ensures
            match config {
                Some(known) => self@.current_config == Some(known@),
                None => self@.current_config is None,
            },
    {
        match &self.session {
            Some(session) => Some(&session.config),
            None => None,
        }
    }

    /// The welcome screen.
    pub fn welcome_scene(&self) -> (scene: &WelcomeScene)
        ensures
            scene@ == self@.welcome_scene,
    {
        &self.welcome_scene
    }

    /// The selected rows of the shown tab.
    pub fn file_selection(&self) -> (selection: &FileSelection)
        ensures
            selection@ == self@.file_selection,
    {
        &self.file_selection
    }

    /// The tags as entered.
    pub fn tags(&self) -> (tags: &String)
        ensures
            tags@ == self@.tags,
    {
        &self.tags
    }

    /// Whether files are held over the window.
    pub fn hovering_with_files(&self) -> (hovering: bool)
        ensures
            hovering == self@.hovering_with_files,
    {
        self.hovering_with_files
    }
}

} // verus!
