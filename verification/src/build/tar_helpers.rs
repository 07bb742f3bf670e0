//! Pieces of the archive: the install and init texts, entry headers, and
//! the entries of the event-handler scripts.

use vstd::prelude::*;
use vstd::string::StrSliceExecFns;
use vstd::string::StringExecFns;
use vstd::utf8::encode_utf8;
use crate::build::archive::{
    holds_path, lemma_new_path_keeps_unique, paths_of, paths_unique, Archive, ArchiveEntry,
    ArchiveEntryView, ENTRY_MODE, TAKEN_CAUSE,
};
use crate::build::error::{BuildError, BuildErrorView};
use crate::build::header::{
    gnu_header_block, gnu_magic, header_block, header_new_gnu, header_set_cksum,
    header_set_mode, header_set_path, header_set_size, io_error_text, is_plain_path,
    is_stored_name, tar_name_field,
};
use crate::build::scripts::{CollectorView, ScriptCollector};
use crate::config::{BuildConfig, Language, LanguageView};
use crate::text::{is_white_space, join, join_of, trim, trim_of};

verus! {

/// The install command a language brings; empty where it brings none.
pub open spec fn install_command_of(language: LanguageView) -> Seq<char> {
    match language {
        LanguageView::BuiltIn { install_command: Some(command), .. } => command,
        _ => Seq::empty(),
    }
}

/// The init command a language brings; empty where it brings none.
pub open spec fn init_command_of(language: LanguageView) -> Seq<char> {
    match language {
        LanguageView::BuiltIn { init_command: Some(command), .. } => command,
        _ => Seq::empty(),
    }
}

/// A line break.
pub open spec fn newline() -> Seq<char> {
    seq!['\n']
}

/// The commands that are not empty, in their order.
pub open spec fn non_empty_of(commands: Seq<Seq<char>>) -> Seq<Seq<char>> {
    commands.filter(|command: Seq<char>| command.len() > 0)
}

/// The install commands that the languages bring, empty ones left out.
pub open spec fn install_commands_of(languages: Seq<LanguageView>) -> Seq<Seq<char>> {
    non_empty_of(languages.map_values(|l: LanguageView| install_command_of(l)))
}

/// The init commands that the languages bring, empty ones left out.
pub open spec fn init_commands_of(languages: Seq<LanguageView>) -> Seq<Seq<char>> {
    non_empty_of(languages.map_values(|l: LanguageView| init_command_of(l)))
}

/// The install commands of the languages, one per line in the order of the
/// languages, empty ones left out, the whole trimmed.
pub open spec fn base_install_of(languages: Seq<LanguageView>) -> Seq<char> {
    trim_of(join_of(install_commands_of(languages), newline()))
}

/// The init commands of the languages, one per line in the order of the
/// languages, empty ones left out, the whole trimmed.
pub open spec fn base_init_of(languages: Seq<LanguageView>) -> Seq<char> {
    trim_of(join_of(init_commands_of(languages), newline()))
}

/// Which of a language's two commands is meant.
#[derive(Clone, Copy, PartialEq, Eq, Structural)]
enum Stage {
    Install,
    Init,
}

spec fn command_of(stage: Stage, language: LanguageView) -> Seq<char> {
    match stage {
        Stage::Install => install_command_of(language),
        Stage::Init => init_command_of(language),
    }
}

/// The non-empty commands of one stage, in the order of the languages.
fn stage_commands(languages: &Vec<Language>, stage: Stage) -> (commands: Vec<String>)
    ensures
        commands.deep_view() == non_empty_of(
            languages.deep_view().map_values(|l: LanguageView| command_of(stage, l)),
        ),
{
    let ghost all = languages.deep_view().map_values(|l: LanguageView| command_of(stage, l));
    let mut commands: Vec<String> = Vec::new();
    let mut i: usize = 0;
    proof {
        reveal(Seq::filter);
    }
    while i < languages.len()
        invariant
            i <= languages.len(),
            all == languages.deep_view().map_values(|l: LanguageView| command_of(stage, l)),
            commands.deep_view() == non_empty_of(all.take(i as int)),
        decreases languages.len() - i,
    {
        proof {
            reveal(Seq::filter);
            assert(all.take(i as int + 1).drop_last() == all.take(i as int));
        }
        match &languages[i] {
            Language::BuiltIn { install_command, init_command } => {
                let chosen = match stage {
                    Stage::Install => install_command,
                    Stage::Init => init_command,
                };
                match chosen {
                    Some(command) => {
                        if !command.as_str().is_empty() {
                            commands.push(command.clone());
                        }
                    },
                    None => {},
                }
            },
            Language::Custom => {},
        }
        i += 1;
    }
    assert(all.take(i as int) == all);
    commands
}

/// The install text of the image: the install command of each built-in
/// language, one per line in the order of the configuration's languages,
/// empty ones left out, the whole trimmed. Other languages add nothing.
pub fn make_base_install(cfg: &BuildConfig) -> (text: String)
    ensures
        text@ == base_install_of(cfg@.languages),
{
    let commands = stage_commands(&cfg.languages, Stage::Install);
    proof {
        reveal_strlit("\n");
        assert("\n"@ =~= newline());
        assert(cfg@.languages.map_values(|l: LanguageView| command_of(Stage::Install, l))
            =~= cfg@.languages.map_values(|l: LanguageView| install_command_of(l)));
    }
    let joined = join(&commands, "\n");
    trim(joined.as_str())
}

/// The init text of the image: as [`make_base_install`], with each
/// language's init command.
pub fn make_base_init(cfg: &BuildConfig) -> (text: String)
    ensures
        text@ == base_init_of(cfg@.languages),
{
    let commands = stage_commands(&cfg.languages, Stage::Init);
    proof {
        reveal_strlit("\n");
        assert("\n"@ =~= newline());
        assert(cfg@.languages.map_values(|l: LanguageView| command_of(Stage::Init, l))
            =~= cfg@.languages.map_values(|l: LanguageView| init_command_of(l)));
    }
    let joined = join(&commands, "\n");
    trim(joined.as_str())
}

/// The text neither starts nor ends with white space.
pub open spec fn has_clean_ends(text: Seq<char>) -> bool {
    text.len() > 0 ==> !is_white_space(text.first()) && !is_white_space(text.last())
}

/// The text has an empty line: it starts or ends with a line break, or two
/// line breaks follow each other.
pub open spec fn has_blank_line(text: Seq<char>) -> bool {
    text.len() > 0 && (text.first() == '\n' || text.last() == '\n' || exists|i: int|
        0 <= i < text.len() - 1 && text[i] == '\n' && #[trigger] text[i + 1] == '\n')
}

/// The install text is the install commands of the built-in languages that
/// are not empty, one per line in the order of the languages. This holds
/// where the joined commands neither start nor end with white space; where
/// they do, the text is their join trimmed.
pub proof fn lemma_base_install_is_joined_commands(languages: Seq<LanguageView>)
    requires
        has_clean_ends(join_of(install_commands_of(languages), newline())),
    ensures
        base_install_of(languages) == join_of(install_commands_of(languages), newline()),
        forall|i: int|
            0 <= i < install_commands_of(languages).len() ==> (
            #[trigger] install_commands_of(languages)[i]).len() > 0,
{
    broadcast use Seq::lemma_filter_pred;

}

/// The init text is the init commands of the built-in languages that are
/// not empty, one per line in the order of the languages. This holds where
/// the joined commands neither start nor end with white space; where they
/// do, the text is their join trimmed.
pub proof fn lemma_base_init_is_joined_commands(languages: Seq<LanguageView>)
    requires
        has_clean_ends(join_of(init_commands_of(languages), newline())),
    ensures
        base_init_of(languages) == join_of(init_commands_of(languages), newline()),
        forall|i: int|
            0 <= i < init_commands_of(languages).len() ==> (#[trigger] init_commands_of(
                languages,
            )[i]).len() > 0,
{
    broadcast use Seq::lemma_filter_pred;

}

/// Joined lines have no blank line among them: where no part is empty and
/// no part has a blank line of its own, their join by line breaks has none.
pub proof fn lemma_joined_lines_have_no_blank_line(parts: Seq<Seq<char>>)
    requires
        forall|i: int| 0 <= i < parts.len() ==> (#[trigger] parts[i]).len() > 0,
        forall|i: int| 0 <= i < parts.len() ==> !has_blank_line(#[trigger] parts[i]),
    ensures
        !has_blank_line(join_of(parts, newline())),
        parts.len() > 0 ==> join_of(parts, newline()).len() > 0,
    decreases parts.len(),
{
    if parts.len() > 1 {
        let rest = parts.drop_last();
        let last = parts.last();
        lemma_joined_lines_have_no_blank_line(rest);
        let head = join_of(rest, newline());
        let all = join_of(parts, newline());
        assert(all == head + newline() + last);
        assert(all.len() == head.len() + 1 + last.len());
        assert(all.first() == head.first());
        assert(all.last() == last.last());
        assert(!has_blank_line(last));
        assert forall|i: int| 0 <= i < all.len() - 1 implies !(all[i] == '\n' && #[trigger] all[i
            + 1] == '\n') by {
            if i + 1 < head.len() {
                assert(all[i] == head[i] && all[i + 1] == head[i + 1]);
            } else if i + 1 == head.len() {
                assert(all[i] == head.last());
            } else if i == head.len() {
                assert(all[i + 1] == last.first());
            } else {
                let k = i - head.len() - 1;
                assert(all[i] == last[k] && all[i + 1] == last[k + 1]);
            }
        }
    }
}

/// The header of an entry stored under `path`, of `size` bytes, with the
/// permission bits `mode`, checksum included.
///
/// Fails exactly on the paths that the archive format cannot hold (absolute
/// ones, ones with `..`, ones longer than the name field); the error names
/// the path. A plain path never fails, and is stored as it is.
pub fn make_header(path: &str, size: u64, mode: u32) -> (r: Result<tokio_tar::Header, BuildError>)
    ensures
        match tar_name_field(path@) {
            Some(name) => r matches Ok(h) && is_stored_name(name) && header_block(h)
                == gnu_header_block(name, size, mode),
            None => r matches Err(e) && e@ matches BuildErrorView::Archive { path: p, .. } && p
                == path@,
        },
        is_plain_path(path@) ==> r is Ok && tar_name_field(path@) == Some(encode_utf8(path@)),
{
    let mut header = header_new_gnu();
    assert(header_block(header).subrange(257, 265) == gnu_magic());
    match header_set_path(&mut header, path) {
        Ok(()) => {},
        Err(e) => {
            return Err(
                BuildError::Archive { path: String::from_str(path), cause: io_error_text(&e) },
            );
        },
    }
    header_set_size(&mut header, size);
    header_set_mode(&mut header, mode);
    header_set_cksum(&mut header);
    Ok(header)
}

/// The entry of a script: its text as UTF-8 under its declared path.
pub open spec fn script_entry(script: (Seq<char>, Seq<char>)) -> ArchiveEntryView {
    ArchiveEntryView { path: script.0, content: encode_utf8(script.1), mode: ENTRY_MODE }
}

/// The first of the paths that cannot be added to an archive whose entries
/// have the paths `taken`: the first that the archive format cannot hold,
/// or that is taken already, by an entry or by a path before it.
pub open spec fn first_refused(taken: Seq<Seq<char>>, paths: Seq<Seq<char>>) -> Option<Seq<char>>
    decreases paths.len(),
{
    if paths.len() == 0 {
        None
    } else if tar_name_field(paths.first()) is None || taken.contains(paths.first()) {
        Some(paths.first())
    } else {
        first_refused(taken.push(paths.first()), paths.drop_first())
    }
}

/// What appending the collected scripts comes to: their entries in the
/// order of the declarations; or the error of the collection; or, where all
/// were read, the first declared path that is refused.
pub enum ScriptEntries {
    Entries(Seq<ArchiveEntryView>),
    NotRead(BuildErrorView),
    Refused(Seq<char>),
}

/// The entries of the scripts of a collection for an archive whose entries
/// have the paths `taken`, or why there are none.
pub open spec fn script_entries_of(taken: Seq<Seq<char>>, collector: CollectorView) -> ScriptEntries {
    match collector.outcome() {
        Err(error) => ScriptEntries::NotRead(error),
        Ok(scripts) => match first_refused(taken, collector.paths) {
            Some(path) => ScriptEntries::Refused(path),
            None => ScriptEntries::Entries(
                scripts.map_values(|s: (Seq<char>, Seq<char>)| script_entry(s)),
            ),
        },
    }
}

/// Appends the collected event-handler scripts to the archive, each under
/// its declared path, in the order of the declarations and not in the order
/// in which their readings ended.
///
/// It is all or nothing: where a script was not read, or no header can be
/// made for a path, or a path is in the archive or among the declared paths
/// before it already, the archive stays as it was and the error says which
/// paths were not read, or which path was refused.
pub fn append_event_handlers(archive: &mut Archive, collector: &ScriptCollector) -> (r: Result<
    (),
    BuildError,
>)
    ensures
        match script_entries_of(paths_of(old(archive)@), collector@) {
            ScriptEntries::Entries(entries) => r is Ok && final(archive)@ == old(archive)@
                + entries,
            ScriptEntries::NotRead(error) => r matches Err(e) && e@ == error && final(archive)@
                == old(archive)@,
            ScriptEntries::Refused(path) => r matches Err(e) && e@ matches BuildErrorView::Archive {
                path: p,
                ..
            } && p == path && final(archive)@ == old(archive)@,
        },
        paths_unique(old(archive)@) ==> paths_unique(final(archive)@),
{
    let scripts = match collector.finish() {
        Ok(scripts) => scripts,
        Err(e) => {
            return Err(e);
        },
    };
    let ghost paths = collector@.paths;
    let ghost taken = paths_of(archive@);
    let ghost wanted = scripts.deep_view().map_values(|s: (Seq<char>, Seq<char>)| script_entry(s));
    let mut entries: Vec<ArchiveEntry> = Vec::new();
    let mut i: usize = 0;
    assert(paths.skip(0) == paths);
    assert(taken + paths.take(0) =~= taken);
    assert(archive@ + entries.deep_view() =~= archive@);
    while i < scripts.len()
        invariant
            i <= scripts.len(),
            scripts.len() == paths.len(),
            paths == collector@.paths,
            taken == paths_of(archive@),
            collector@.outcome() == Ok::<Seq<(Seq<char>, Seq<char>)>, BuildErrorView>(
                scripts.deep_view(),
            ),
            archive@ == old(archive)@,
            forall|k: int| 0 <= k < paths.len() ==> (#[trigger] scripts.deep_view()[k]).0 == paths[k],
            wanted == scripts.deep_view().map_values(|s: (Seq<char>, Seq<char>)| script_entry(s)),
            first_refused(taken, paths) == first_refused(
                taken + paths.take(i as int),
                paths.skip(i as int),
            ),
            entries.deep_view() == wanted.take(i as int),
            paths_of(entries.deep_view()) == paths.take(i as int),
            paths_unique(archive@) ==> paths_unique(archive@ + entries.deep_view()),
        decreases scripts.len() - i,
    {
        let ghost before = entries.deep_view();
        let ghost seen = taken + paths.take(i as int);
        assert(paths.skip(i as int).first() == paths[i as int]);
        assert(paths.skip(i as int).drop_first() == paths.skip(i as int + 1));
        assert(seen.push(paths[i as int]) =~= taken + paths.take(i as int + 1));
        assert(scripts.deep_view()[i as int] == (scripts[i as int].0@, scripts[i as int].1@));
        assert(seen.contains(paths[i as int]) <==> taken.contains(paths[i as int]) || paths.take(
            i as int,
        ).contains(paths[i as int])) by {
            lemma_contains_of_concat(taken, paths.take(i as int), paths[i as int]);
        }
        let path = scripts[i].0.as_str();
        let content = scripts[i].1.as_str().as_bytes_vec();
        match ArchiveEntry::new(path, content, ENTRY_MODE) {
            Ok(entry) => {
                if archive.holds(path) || holds_path(&entries, path) {
                    return Err(
                        BuildError::Archive {
                            path: String::from_str(path),
                            cause: String::from_str(TAKEN_CAUSE),
                        },
                    );
                }
                proof {
                    assert(paths_of(archive@ + before) =~= seen);
                    if paths_unique(archive@) {
                        lemma_new_path_keeps_unique(archive@ + before, entry@);
                    }
                    assert((archive@ + before).push(entry@) =~= archive@ + before.push(entry@));
                }
                entries.push(entry);
                assert(entries.deep_view() =~= before.push(entry@));
                assert(wanted.take(i as int + 1) =~= wanted.take(i as int).push(wanted[i as int]));
                assert(paths_of(entries.deep_view()) =~= paths.take(i as int + 1));
            },
            Err(e) => {
                return Err(e);
            },
        }
        i += 1;
    }
    assert(wanted.take(i as int) == wanted);
    archive.extend(entries);
    Ok(())
}

/// A text is among two sequences put together where it is in one of them.
pub proof fn lemma_contains_of_concat(a: Seq<Seq<char>>, b: Seq<Seq<char>>, x: Seq<char>)
    ensures
        (a + b).contains(x) <==> a.contains(x) || b.contains(x),
{
    if a.contains(x) {
        let k = choose|k: int| 0 <= k < a.len() && a[k] == x;
        assert((a + b)[k] == x);
    }
    if b.contains(x) {
        let k = choose|k: int| 0 <= k < b.len() && b[k] == x;
        assert((a + b)[a.len() + k] == x);
    }
    if (a + b).contains(x) {
        let k = choose|k: int| 0 <= k < (a + b).len() && (a + b)[k] == x;
        if k < a.len() {
            assert(a[k] == x);
        } else {
            assert(b[k - a.len()] == x);
        }
    }
}

} // verus!
