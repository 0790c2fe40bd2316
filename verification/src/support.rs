//! A report on the state of the application, for support. It names no one,
//! holds no secret, and does not tell where the user keeps files.

use crate::activation::ActiveKind;
use crate::codex_document::ConfigInspection;
use crate::text;
use vstd::prelude::*;

verus! {

/// A text that does not tell where the home directory of the user is.
pub open spec fn without_home(source: Seq<char>, home: Option<Seq<char>>) -> Seq<char> {
    match home {
        Some(home) => text::replaced(source, home, "~"@),
        None => source,
    }
}

/// A text that does not tell where the home directory of the user is. The
/// home directory is not an empty text.
pub fn redact_home_text(source: &str, home: Option<&str>) -> (redacted: String)
    ensures
        redacted@ == without_home(source@, text::text_of(home)),
{
    match home {
        Some(home) => text::replace(source, home, "~"),
        None => source.to_owned(),
    }
}

/// A text that was redacted does not hold the home directory of the user
/// anywhere, unless that has a tilde in its own path.
pub proof fn law_home_is_not_shown(source: Seq<char>, home: Seq<char>)
    requires
        home.len() > 0,
        !home.contains('~'),
    ensures
        !text::occurs(without_home(source, Some(home)), home),
{
    reveal_strlit("~");
    let nothing = Seq::<char>::empty();
    assert(nothing + "~"@ + nothing =~= "~"@);
    assert(home.take(0) =~= nothing);
    assert(home.skip(home.len() as int) =~= nothing);
    assert forall|by: int| -home.len() < by < "~"@.len() implies #[trigger] text::differ(
        home,
        "~"@,
        by,
    ) by {
        let i = -by;
        assert(home.contains(home[i]));
        assert(home[i] != "~"@[by + i]);
    }
    text::lemma_replaced_is_gone(source, home, (nothing, "~"@, nothing));
}

/// A path that does not tell where the home directory of the user is. Below
/// it, only the rest of the path is shown.
pub fn redact_home_path(path: &str, below_home: Option<&str>, separator: &str) -> (redacted: String)
    ensures
        redacted@ == match below_home {
            Some(rest) => "~"@ + separator@ + rest@,
            None => path@,
        },
{
    match below_home {
        Some(rest) => {
            let mut redacted = text::concat("~", separator);
            redacted.append(rest);
            redacted
        },
        None => path.to_owned(),
    }
}

/// What is known of the database of usage.
pub struct UsageDatabase {
    pub exists: bool,
    pub opened: bool,
    pub quick_check: Option<String>,
}

/// What the check of the database says.
pub open spec fn check_words(database: UsageDatabase) -> Seq<char> {
    if !database.exists {
        "missing"@
    } else if !database.opened {
        "unavailable"@
    } else {
        match database.quick_check {
            Some(words) => words@,
            None => "unavailable"@,
        }
    }
}

/// What there is to tell about the database.
pub open spec fn database_warnings(database: UsageDatabase) -> Seq<Seq<char>> {
    if !database.exists {
        Seq::empty()
    } else if !database.opened {
        seq!["用量数据库无法以只读方式打开。"@]
    } else if check_words(database) != "ok"@ {
        seq!["用量数据库快速检查结果："@ + check_words(database)]
    } else {
        Seq::empty()
    }
}

/// Tells what the check of the database says, and what there is to tell about
/// it.
pub fn usage_database_diagnostics(database: &UsageDatabase, warnings: &mut Vec<String>) -> (check:
    String)
    ensures
        check@ == check_words(*database),
        text::texts(final(warnings)@) == text::texts(old(warnings)@) + database_warnings(
            *database,
        ),
{
    let ghost before = warnings@;
    if !database.exists {
        assert(text::texts(warnings@) + Seq::<Seq<char>>::empty() =~= text::texts(warnings@));
        return "missing".to_owned();
    }
    if !database.opened {
        warnings.push("用量数据库无法以只读方式打开。".to_owned());
        assert(text::texts(warnings@) =~= text::texts(before) + database_warnings(*database));
        return "unavailable".to_owned();
    }
    let check = match &database.quick_check {
        Some(words) => words.clone(),
        None => "unavailable".to_owned(),
    };
    if !text::same_text(check.as_str(), "ok") {
        warnings.push(text::concat("用量数据库快速检查结果：", check.as_str()));
        assert(text::texts(warnings@) =~= text::texts(before) + database_warnings(*database));
    } else {
        assert(text::texts(warnings@) + Seq::<Seq<char>>::empty() =~= text::texts(warnings@));
    }
    check
}

/// The texts, none of which tells where the home directory of the user is.
pub open spec fn all_without_home(texts: Seq<Seq<char>>, home: Option<Seq<char>>) -> Seq<Seq<char>> {
    texts.map_values(|source: Seq<char>| without_home(source, home))
}

fn redact_all(sources: &Vec<String>, home: Option<&str>) -> (redacted: Vec<String>)
    ensures
        text::texts(redacted@) == all_without_home(text::texts(sources@), text::text_of(home)),
{
    let mut redacted: Vec<String> = Vec::new();
    let ghost all = all_without_home(text::texts(sources@), text::text_of(home));
    for index in 0..sources.len()
        invariant
            all == all_without_home(text::texts(sources@), text::text_of(home)),
            text::texts(redacted@) == all.take(index as int),
    {
        let ghost before = redacted@;
        redacted.push(redact_home_text(sources[index].as_str(), home));
        proof {
            assert(text::texts(sources@)[index as int] == sources@[index as int]@);
            assert(all[index as int] == without_home(
                sources@[index as int]@,
                text::text_of(home),
            ));
            assert(text::texts(redacted@) =~= text::texts(before).push(all[index as int]));
            assert(all.take(index + 1) =~= all.take(index as int).push(all[index as int]));
        }
    }
    assert(all.take(sources.len() as int) =~= all);
    redacted
}

/// A path, and what of it stands below the home directory of the user, where
/// it does.
pub struct KnownPath {
    pub path: String,
    pub below_home: Option<String>,
}

/// A path that does not tell where the home directory of the user is.
pub open spec fn shown_path(known: KnownPath, separator: Seq<char>) -> Seq<char> {
    match known.below_home {
        Some(rest) => "~"@ + separator + rest@,
        None => known.path@,
    }
}

fn show_path(known: &KnownPath, separator: &str) -> (shown: String)
    ensures
        shown@ == shown_path(*known, separator@),
{
    let rest = match &known.below_home {
        Some(rest) => Some(rest.as_str()),
        None => None,
    };
    redact_home_path(known.path.as_str(), rest, separator)
}

/// The paths of the application and of Codex.
pub struct SupportPaths {
    pub data_directory: KnownPath,
    pub codex_home: KnownPath,
    pub config_file: KnownPath,
}

/// What is known of a file of the application.
pub struct SupportFile {
    pub name: String,
    pub exists: bool,
    pub readable: bool,
    pub size_bytes: Option<u64>,
}

/// The names of the files of the application.
pub open spec fn file_names() -> Seq<Seq<char>> {
    seq![
        "app.json"@,
        "connections.json"@,
        "credentials.json"@,
        "pricing.json"@,
        "usage.json"@,
        "sessions.json"@,
        "cache.json"@,
    ]
}

/// The names of the files of the application that a report tells of.
pub fn reported_files() -> (names: Vec<String>)
    ensures
        text::texts(names@) == file_names(),
{
    let mut names: Vec<String> = Vec::new();
    names.push("app.json".to_owned());
    names.push("connections.json".to_owned());
    names.push("credentials.json".to_owned());
    names.push("pricing.json".to_owned());
    names.push("usage.json".to_owned());
    names.push("sessions.json".to_owned());
    names.push("cache.json".to_owned());
    assert(text::texts(names@) =~= file_names());
    names
}

/// Tells of a file: it is there where its size is known.
pub fn file_diagnostics(name: String, size_bytes: Option<u64>, readable: bool) -> (file: SupportFile)
    ensures
        file.name@ == name@,
        file.exists == (size_bytes is Some),
        file.readable == readable,
        file.size_bytes == size_bytes,
{
    SupportFile { name, exists: size_bytes.is_some(), readable, size_bytes }
}

/// What a report never tells.
pub open spec fn omitted_things() -> Seq<Seq<char>> {
    seq![
        "API keys"@,
        "OAuth and Cookie tokens"@,
        "custom header values"@,
        "account identifiers and email addresses"@,
        "proxy addresses"@,
    ]
}

fn list_omitted() -> (things: Vec<String>)
    ensures
        text::texts(things@) == omitted_things(),
{
    let mut things: Vec<String> = Vec::new();
    things.push("API keys".to_owned());
    things.push("OAuth and Cookie tokens".to_owned());
    things.push("custom header values".to_owned());
    things.push("account identifiers and email addresses".to_owned());
    things.push("proxy addresses".to_owned());
    assert(text::texts(things@) =~= omitted_things());
    things
}

/// What is connected.
pub struct Connections {
    pub kind: ActiveKind,
    pub provider_count: usize,
    pub official_account_count: usize,
    pub active_model: Option<String>,
}

/// A report on the state of the application.
pub struct SupportReport {
    pub schema_version: u32,
    pub data_directory: String,
    pub codex_home: String,
    pub config_file: String,
    pub active_kind: &'static str,
    pub provider_count: usize,
    pub official_account_count: usize,
    pub active_model: Option<String>,
    pub files: Vec<SupportFile>,
    pub home_paths_redacted: bool,
    pub omitted: Vec<String>,
    pub configuration_valid: bool,
    pub active_provider: Option<String>,
    pub managed_provider_present: bool,
    pub configuration_warnings: Vec<String>,
    pub indexed_session_count: usize,
    pub session_database_count: usize,
    pub usage_check: String,
    pub warnings: Vec<String>,
}

/// The word for what is in use.
pub open spec fn kind_word(kind: ActiveKind) -> Seq<char> {
    match kind {
        ActiveKind::Official => "official"@,
        ActiveKind::Provider => "provider"@,
        ActiveKind::Unset => "none"@,
    }
}

/// What there is to tell about the index of sessions.
pub open spec fn index_warnings(
    index: Result<(usize, usize), String>,
    home: Option<Seq<char>>,
) -> Seq<Seq<char>> {
    match index {
        Ok(_) => Seq::empty(),
        Err(error) => seq!["会话索引读取失败："@ + without_home(error@, home)],
    }
}

/// Draws up a report. `index` is how many sessions and how many databases
/// there are, or why that is not known.
pub fn build_support_diagnostics(
    paths: &SupportPaths,
    inspection: ConfigInspection,
    index: &Result<(usize, usize), String>,
    database: &UsageDatabase,
    files: Vec<SupportFile>,
    connections: Connections,
    home: Option<&str>,
    separator: &str,
) -> (report: SupportReport)
    ensures
        report.schema_version == 1,
        report.data_directory@ == shown_path(paths.data_directory, separator@),
        report.codex_home@ == shown_path(paths.codex_home, separator@),
        report.config_file@ == shown_path(paths.config_file, separator@),
        report.active_kind@ == kind_word(connections.kind),
        report.provider_count == connections.provider_count,
        report.official_account_count == connections.official_account_count,
        report.active_model == connections.active_model,
        report.files == files,
        report.home_paths_redacted,
        text::texts(report.omitted@) == omitted_things(),
        report.configuration_valid == inspection.valid,
        report.active_provider == inspection.active_provider,
        report.managed_provider_present == inspection.managed_provider_present,
        text::texts(report.configuration_warnings@) == all_without_home(
            text::texts(inspection.warnings@),
            text::text_of(home),
        ),
        (report.indexed_session_count, report.session_database_count) == (match *index {
            Ok(counts) => counts,
            Err(_) => (0usize, 0usize),
        }),
        report.usage_check@ == check_words(*database),
        text::texts(report.warnings@) == all_without_home(
            text::texts(inspection.warnings@),
            text::text_of(home),
        ) + index_warnings(*index, text::text_of(home)) + database_warnings(*database),
{
    let configuration_warnings = redact_all(&inspection.warnings, home);
    let mut warnings = redact_all(&inspection.warnings, home);
    let ghost before = text::texts(warnings@);
    let (sessions, databases) = match index {
        Ok(counts) => {
            assert(before + Seq::<Seq<char>>::empty() =~= before);
            *counts
        },
        Err(error) => {
            let ghost held = warnings@;
            let shown = redact_home_text(error.as_str(), home);
            warnings.push(text::concat("会话索引读取失败：", shown.as_str()));
            assert(text::texts(warnings@) =~= before + index_warnings(
                *index,
                text::text_of(home),
            ));
            (0usize, 0usize)
        },
    };
    let usage_check = usage_database_diagnostics(database, &mut warnings);
    let active_kind = match connections.kind {
        ActiveKind::Official => "official",
        ActiveKind::Provider => "provider",
        ActiveKind::Unset => "none",
    };
    SupportReport {
        schema_version: 1,
        data_directory: show_path(&paths.data_directory, separator),
        codex_home: show_path(&paths.codex_home, separator),
        config_file: show_path(&paths.config_file, separator),
        active_kind,
        provider_count: connections.provider_count,
        official_account_count: connections.official_account_count,
        active_model: connections.active_model,
        files,
        home_paths_redacted: true,
        omitted: list_omitted(),
        configuration_valid: inspection.valid,
        active_provider: inspection.active_provider,
        managed_provider_present: inspection.managed_provider_present,
        configuration_warnings,
        indexed_session_count: sessions,
        session_database_count: databases,
        usage_check,
        warnings,
    }
}

/// The outcome of the check of the database is shown as it is, and a warning tells
/// of it unless all is well or there is no database.
pub proof fn law_database_is_reported(database: UsageDatabase)
    ensures
        database.exists && database.opened && database.quick_check is Some ==> check_words(database)
            == database.quick_check->0@,
        database.exists && database.opened && database.quick_check is Some
            && database.quick_check->0@ == "ok"@ ==> database_warnings(database).len() == 0,
        database.exists && database.opened && database.quick_check is Some
            && database.quick_check->0@ != "ok"@ ==> database_warnings(database).len() == 1
            && text::finishes_with(database_warnings(database)[0], database.quick_check->0@),
        database.exists && !database.opened ==> database_warnings(database).len() == 1,
        !database.exists ==> database_warnings(database).len() == 0,
{
    if let Some(words) = database.quick_check {
        let told = "用量数据库快速检查结果："@ + words@;
        assert(told.skip(told.len() - words@.len()) =~= words@);
    }
}

/// What is shown of a path below the home directory is the mark of that directory
/// and the rest; any other path is shown as it is.
pub proof fn law_paths_are_shown(known: KnownPath, separator: Seq<char>)
    ensures
        known.below_home matches Some(rest) ==> text::begins_with(
            shown_path(known, separator),
            "~"@ + separator,
        ) && text::finishes_with(shown_path(known, separator), rest@) && shown_path(
            known,
            separator,
        ).len() == 1 + separator.len() + rest@.len(),
        known.below_home is None ==> shown_path(known, separator) == known.path@,
{
    reveal_strlit("~");
    if let Some(rest) = known.below_home {
        let shown = shown_path(known, separator);
        let start = "~"@ + separator;
        assert(shown.take(start.len() as int) =~= start);
        assert(shown.skip(shown.len() - rest@.len()) =~= rest@);
    }
}

/// A session index that could not be read is told of, with the reason, in which the
/// home directory is not shown.
pub proof fn law_unread_index_is_told(index: Result<(usize, usize), String>, home: Seq<char>)
    ensures
        index is Ok ==> index_warnings(index, Some(home)).len() == 0,
        index matches Err(reason) ==> index_warnings(index, Some(home)).len() == 1
            && text::finishes_with(
            index_warnings(index, Some(home))[0],
            text::replaced(reason@, home, "~"@),
        ),
        index matches Err(reason) ==> index_warnings(index, None).len() == 1
            && text::finishes_with(index_warnings(index, None)[0], reason@),
{
    if let Err(reason) = index {
        let shown = text::replaced(reason@, home, "~"@);
        let told = "会话索引读取失败："@ + shown;
        let whole = "会话索引读取失败："@ + reason@;
        assert(told.skip(told.len() - shown.len()) =~= shown);
        assert(whole.skip(whole.len() - reason@.len()) =~= reason@);
    }
}

/// Every warning is told, in its place, without the home directory.
pub proof fn law_warnings_are_told(sources: Seq<Seq<char>>, home: Seq<char>, i: int)
    requires
        0 <= i < sources.len(),
    ensures
        all_without_home(sources, Some(home)).len() == sources.len(),
        all_without_home(sources, Some(home))[i] == text::replaced(sources[i], home, "~"@),
        all_without_home(sources, None)[i] == sources[i],
{
}

} // verus!
