//! The three files of Codex that are changed together, and the order in which
//! they are written.

use crate::codex_preview::bytes_view;
use crate::models::{AppError, ErrorView};
use crate::text;
use vstd::prelude::*;

verus! {

/// The most bytes that a configuration file may have.
pub const MAX_CODEX_CONFIG_BYTES: usize = 2097152;

/// The most bytes that a login file may have.
pub const MAX_CODEX_AUTH_BYTES: usize = 4194304;

/// The most bytes that a list of models may have.
pub const MAX_MODEL_CATALOG_BYTES: usize = 16777216;

// ---------------------------------------------------------------------------
// Reading
// ---------------------------------------------------------------------------

/// What came of reading a file.
pub enum FileRead {
    /// There is no such file.
    Absent,
    /// It was not read, for its length.
    TooLong,
    /// What it holds.
    Contents(Vec<u8>),
    /// It could not be read, for the given reason.
    Failed(String),
}

/// What came of reading the three files.
pub struct FileReads {
    pub config: FileRead,
    pub auth: FileRead,
    pub catalog: FileRead,
}

/// The contents of the three files, each where there is one.
pub struct CodexFiles {
    pub config: Option<Vec<u8>>,
    pub auth: Option<Vec<u8>>,
    pub catalog: Option<Vec<u8>>,
}

/// The contents of the three files as a mathematical value.
pub struct FilesView {
    pub config: Option<Seq<u8>>,
    pub auth: Option<Seq<u8>>,
    pub catalog: Option<Seq<u8>>,
}

impl View for CodexFiles {
    type V = FilesView;

    open spec fn view(&self) -> FilesView {
        FilesView {
            config: bytes_view(self.config),
            auth: bytes_view(self.auth),
            catalog: bytes_view(self.catalog),
        }
    }
}

/// What a file holds, or why that is not taken.
pub open spec fn captured(read: FileRead, limit: usize, message: Seq<char>) -> Result<
    Option<Seq<u8>>,
    ErrorView,
> {
    match read {
        FileRead::Absent => Ok(None),
        FileRead::TooLong => Err(ErrorView::InvalidConfig(message)),
        FileRead::Contents(bytes) => if bytes.len() > limit {
            Err(ErrorView::InvalidConfig(message))
        } else {
            Ok(Some(bytes@))
        },
        FileRead::Failed(reason) => Err(ErrorView::Internal(reason@)),
    }
}

/// What a configuration file holds.
pub open spec fn captured_config(read: FileRead) -> Result<Option<Seq<u8>>, ErrorView> {
    captured(
        read,
        MAX_CODEX_CONFIG_BYTES,
        "Codex 配置文件超过 2 MB，程序已停止读取以避免占用过多内存。"@,
    )
}

/// What a login file holds.
pub open spec fn captured_auth(read: FileRead) -> Result<Option<Seq<u8>>, ErrorView> {
    captured(
        read,
        MAX_CODEX_AUTH_BYTES,
        "Codex 登录文件超过 4 MB，程序已停止读取以避免占用过多内存。"@,
    )
}

/// What a list of models holds.
pub open spec fn captured_catalog(read: FileRead) -> Result<Option<Seq<u8>>, ErrorView> {
    captured(
        read,
        MAX_MODEL_CATALOG_BYTES,
        "Codex 模型目录超过 16 MB，程序已停止读取以避免占用过多内存。"@,
    )
}

/// What the three files hold, or what is wrong with the first that is wrong.
pub open spec fn captured_files(reads: FileReads) -> Result<FilesView, ErrorView> {
    match captured_config(reads.config) {
        Err(error) => Err(error),
        Ok(config) => match captured_auth(reads.auth) {
            Err(error) => Err(error),
            Ok(auth) => match captured_catalog(reads.catalog) {
                Err(error) => Err(error),
                Ok(catalog) => Ok(FilesView { config, auth, catalog }),
            },
        },
    }
}

/// The contents, or the error.
pub open spec fn contents_result(outcome: Result<Option<Vec<u8>>, AppError>) -> Result<
    Option<Seq<u8>>,
    ErrorView,
> {
    match outcome {
        Ok(contents) => Ok(bytes_view(contents)),
        Err(error) => Err(error@),
    }
}

/// The files, or the error.
pub open spec fn files_result(outcome: Result<CodexFiles, AppError>) -> Result<
    FilesView,
    ErrorView,
> {
    match outcome {
        Ok(files) => Ok(files@),
        Err(error) => Err(error@),
    }
}

fn capture_file(read: FileRead, limit: usize, message: &str) -> (outcome: Result<
    Option<Vec<u8>>,
    AppError,
>)
    ensures
        contents_result(outcome) == captured(read, limit, message@),
{
    match read {
        FileRead::Absent => Ok(None),
        FileRead::TooLong => Err(AppError::invalid(message)),
        FileRead::Contents(bytes) => if bytes.len() > limit {
            Err(AppError::invalid(message))
        } else {
            Ok(Some(bytes))
        },
        FileRead::Failed(reason) => Err(AppError::Internal(reason)),
    }
}

/// Takes what the three files hold.
pub fn capture(reads: FileReads) -> (outcome: Result<CodexFiles, AppError>)
    ensures
        files_result(outcome) == captured_files(reads),
{
    let config = match capture_file(
        reads.config,
        MAX_CODEX_CONFIG_BYTES,
        "Codex 配置文件超过 2 MB，程序已停止读取以避免占用过多内存。",
    ) {
        Ok(config) => config,
        Err(error) => return Err(error),
    };
    let auth = match capture_file(
        reads.auth,
        MAX_CODEX_AUTH_BYTES,
        "Codex 登录文件超过 4 MB，程序已停止读取以避免占用过多内存。",
    ) {
        Ok(auth) => auth,
        Err(error) => return Err(error),
    };
    let catalog = match capture_file(
        reads.catalog,
        MAX_MODEL_CATALOG_BYTES,
        "Codex 模型目录超过 16 MB，程序已停止读取以避免占用过多内存。",
    ) {
        Ok(catalog) => catalog,
        Err(error) => return Err(error),
    };
    Ok(CodexFiles { config, auth, catalog })
}

/// The text of a configuration file. Where there is none, it is empty.
pub open spec fn config_text(contents: Option<Seq<u8>>) -> Result<Seq<char>, ErrorView> {
    match contents {
        None => Ok(Seq::empty()),
        Some(bytes) => match text::utf8_text_of(bytes) {
            Some(source) => Ok(source),
            None => Err(
                ErrorView::InvalidConfig(
                    "Codex 配置文件不是有效的 UTF-8 文本，请手动修复后再试。"@,
                ),
            ),
        },
    }
}

/// The text, or the error.
pub open spec fn text_result(outcome: Result<String, AppError>) -> Result<Seq<char>, ErrorView> {
    match outcome {
        Ok(source) => Ok(source@),
        Err(error) => Err(error@),
    }
}

/// The text of a configuration file. Where there is none, it is empty.
pub fn read_config_text(contents: &Option<Vec<u8>>) -> (outcome: Result<String, AppError>)
    ensures
        text_result(outcome) == config_text(bytes_view(*contents)),
{
    match contents {
        None => {
            let empty = String::new();
            assert(empty@ =~= Seq::<char>::empty());
            Ok(empty)
        },
        Some(bytes) => match text::utf8_text(bytes.as_slice()) {
            Some(source) => Ok(source),
            None => Err(
                AppError::invalid("Codex 配置文件不是有效的 UTF-8 文本，请手动修复后再试。"),
            ),
        },
    }
}

/// What came of reading a file as a text.
pub enum TextRead {
    Absent,
    TooLong,
    Text(String),
    Failed(String),
    /// Its size cannot be found.
    Unsized(String),
}

/// The text of a configuration file that is looked at alone, or why it is not
/// taken.
pub open spec fn inspected_text(read: TextRead) -> Result<Seq<char>, ErrorView> {
    let too_long = ErrorView::InvalidConfig(
        "Codex 配置文件超过 2 MB，程序已停止读取以避免占用过多内存。"@,
    );
    match read {
        TextRead::Absent => Ok(Seq::empty()),
        TextRead::TooLong => Err(too_long),
        TextRead::Text(source) => if text::byte_count(source@) > MAX_CODEX_CONFIG_BYTES {
            Err(too_long)
        } else {
            Ok(source@)
        },
        TextRead::Failed(reason) => Err(
            ErrorView::Internal("无法读取 Codex 配置文件，请检查文件权限："@ + reason@),
        ),
        TextRead::Unsized(reason) => Err(
            ErrorView::Internal("无法检查 Codex 文件大小，请检查文件权限："@ + reason@),
        ),
    }
}

/// The text of a configuration file that is looked at alone, or why it is not
/// taken.
pub fn read_optional(read: TextRead) -> (outcome: Result<String, AppError>)
    ensures
        text_result(outcome) == inspected_text(read),
{
    match read {
        TextRead::Absent => {
            let empty = String::new();
            assert(empty@ =~= Seq::<char>::empty());
            Ok(empty)
        },
        TextRead::TooLong => Err(
            AppError::invalid("Codex 配置文件超过 2 MB，程序已停止读取以避免占用过多内存。"),
        ),
        TextRead::Text(source) => if text::byte_len(source.as_str()) > MAX_CODEX_CONFIG_BYTES {
            Err(AppError::invalid("Codex 配置文件超过 2 MB，程序已停止读取以避免占用过多内存。"))
        } else {
            Ok(source)
        },
        TextRead::Failed(reason) => Err(
            AppError::Internal(
                text::concat("无法读取 Codex 配置文件，请检查文件权限：", reason.as_str()),
            ),
        ),
        TextRead::Unsized(reason) => Err(
            AppError::Internal(
                text::concat("无法检查 Codex 文件大小，请检查文件权限：", reason.as_str()),
            ),
        ),
    }
}

fn same_bytes(one: &Vec<u8>, other: &Vec<u8>) -> (same: bool)
    ensures
        same == (one@ == other@),
{
    if one.len() != other.len() {
        return false;
    }
    for index in 0..one.len()
        invariant
            one.len() == other.len(),
            forall|i: int| 0 <= i < index ==> #[trigger] one@[i] == other@[i],
    {
        if one[index] != other[index] {
            assert(one@[index as int] != other@[index as int]);
            return false;
        }
    }
    assert(one@ =~= other@);
    true
}

/// Whether two files hold the same, or both are absent.
pub fn same_contents(one: &Option<Vec<u8>>, other: &Option<Vec<u8>>) -> (same: bool)
    ensures
        same == (bytes_view(*one) == bytes_view(*other)),
{
    match (one, other) {
        (Some(one), Some(other)) => same_bytes(one, other),
        (None, None) => true,
        _ => false,
    }
}

impl CodexFiles {
    /// Whether the files are the same as others.
    pub fn same_as(&self, other: &CodexFiles) -> (same: bool)
        ensures
            same == (self@ == other@),
    {
        same_contents(&self.config, &other.config) && same_contents(&self.auth, &other.auth)
            && same_contents(&self.catalog, &other.catalog)
    }
}

// ---------------------------------------------------------------------------
// Writing
// ---------------------------------------------------------------------------

/// One of the three files.
#[derive(Clone, Copy, Debug, PartialEq, Eq, Structural)]
pub enum CodexFile {
    Config,
    Auth,
    Catalog,
}

/// A change to one file.
pub enum FileStep {
    Write(CodexFile, Vec<u8>),
    Remove(CodexFile),
}

/// A change to one file as a mathematical value.
pub enum FileStepView {
    Write(CodexFile, Seq<u8>),
    Remove(CodexFile),
}

impl View for FileStep {
    type V = FileStepView;

    open spec fn view(&self) -> FileStepView {
        match self {
            FileStep::Write(file, bytes) => FileStepView::Write(*file, bytes@),
            FileStep::Remove(file) => FileStepView::Remove(*file),
        }
    }
}

impl FilesView {
    /// The files of which one holds something else.
    pub open spec fn put(self, file: CodexFile, contents: Option<Seq<u8>>) -> FilesView {
        match file {
            CodexFile::Config => FilesView { config: contents, ..self },
            CodexFile::Auth => FilesView { auth: contents, ..self },
            CodexFile::Catalog => FilesView { catalog: contents, ..self },
        }
    }

    /// The files after a change.
    pub open spec fn after(self, step: FileStepView) -> FilesView {
        match step {
            FileStepView::Write(file, bytes) => self.put(file, Some(bytes)),
            FileStepView::Remove(file) => self.put(file, None),
        }
    }
}

/// A login file without a login.
pub open spec fn neutral_login() -> Seq<u8> {
    seq![123u8, 125u8, 10u8]
}

fn make_neutral_login() -> (bytes: Vec<u8>)
    ensures
        bytes@ == neutral_login(),
{
    let bytes: Vec<u8> = vec![123, 125, 10];
    assert(bytes@ =~= neutral_login());
    bytes
}

/// The change that gives a file back what it held.
pub open spec fn restoring_step(file: CodexFile, contents: Option<Seq<u8>>) -> FileStepView {
    match contents {
        Some(bytes) => FileStepView::Write(file, bytes),
        None => FileStepView::Remove(file),
    }
}

fn copy_bytes(bytes: &Vec<u8>) -> (copy: Vec<u8>)
    ensures
        copy@ == bytes@,
{
    let mut copy: Vec<u8> = Vec::new();
    for index in 0..bytes.len()
        invariant
            copy@ == bytes@.take(index as int),
    {
        copy.push(bytes[index]);
        assert(copy@ =~= bytes@.take(index + 1));
    }
    assert(bytes@.take(bytes.len() as int) =~= bytes@);
    copy
}

fn make_restoring_step(file: CodexFile, contents: &Option<Vec<u8>>) -> (step: FileStep)
    ensures
        step@ == restoring_step(file, bytes_view(*contents)),
{
    match contents {
        Some(bytes) => FileStep::Write(file, copy_bytes(bytes)),
        None => FileStep::Remove(file),
    }
}

/// How far the files have been changed. Before anything is written, it is
/// made sure that it may be. Then come the list of models, a login file
/// without a login, the configuration and the login. Where that fails, the
/// files get back what they held, again with no login in between.
#[derive(Clone, Copy, Debug, PartialEq, Eq, Structural)]
pub enum Phase {
    Guard,
    Catalog,
    Compare,
    Neutral,
    Config,
    Auth,
    RestoreNeutral,
    RestoreCatalog,
    RestoreConfig,
    RestoreAuth,
    Over,
}

/// What is to be done next.
pub enum Task {
    /// Make sure that the files may be written.
    Guard,
    /// Read the configuration and the login file.
    Compare,
    /// Change a file.
    Perform(FileStep),
    /// Nothing.
    Finished,
}

/// What is to be done next, as a mathematical value.
pub enum TaskView {
    Guard,
    Compare,
    Perform(FileStepView),
    Finished,
}

impl View for Task {
    type V = TaskView;

    open spec fn view(&self) -> TaskView {
        match self {
            Task::Guard => TaskView::Guard,
            Task::Compare => TaskView::Compare,
            Task::Perform(step) => TaskView::Perform(step@),
            Task::Finished => TaskView::Finished,
        }
    }
}

/// What came of a task.
pub enum Report {
    Done,
    Failed(AppError),
    /// The configuration and the login file, each where it could be read.
    Found(Option<Vec<u8>>, Option<Vec<u8>>),
}

/// What came of a task, as a mathematical value.
pub enum ReportView {
    Done,
    Failed(ErrorView),
    Found(Option<Seq<u8>>, Option<Seq<u8>>),
}

impl View for Report {
    type V = ReportView;

    open spec fn view(&self) -> ReportView {
        match self {
            Report::Done => ReportView::Done,
            Report::Failed(error) => ReportView::Failed(error@),
            Report::Found(config, auth) => ReportView::Found(
                bytes_view(*config),
                bytes_view(*auth),
            ),
        }
    }
}

/// A change to the three files that is under way.
pub struct Commit {
    pub original: CodexFiles,
    pub config: Vec<u8>,
    pub auth: Vec<u8>,
    pub catalog: Option<Vec<u8>>,
    pub phase: Phase,
    pub error: Option<AppError>,
    pub rollback_failed: bool,
    pub undoing: bool,
}

/// A change to the three files as a mathematical value.
pub struct CommitView {
    pub original: FilesView,
    pub config: Seq<u8>,
    pub auth: Seq<u8>,
    pub catalog: Option<Seq<u8>>,
    pub phase: Phase,
    pub error: Option<ErrorView>,
    pub rollback_failed: bool,
    pub undoing: bool,
}

/// The optional error.
pub open spec fn error_of(error: Option<AppError>) -> Option<ErrorView> {
    match error {
        Some(error) => Some(error@),
        None => None,
    }
}

impl View for Commit {
    type V = CommitView;

    open spec fn view(&self) -> CommitView {
        CommitView {
            original: self.original@,
            config: self.config@,
            auth: self.auth@,
            catalog: bytes_view(self.catalog),
            phase: self.phase,
            error: error_of(self.error),
            rollback_failed: self.rollback_failed,
            undoing: self.undoing,
        }
    }
}

/// The error where neither the change nor its undoing worked.
pub open spec fn combined_error(error: ErrorView, rollback: ErrorView) -> ErrorView {
    ErrorView::Internal(
        error.message() + "；Codex 原配置回滚失败，请手动检查配置文件："@ + rollback.message(),
    )
}

impl CommitView {
    /// A change before anything is done.
    pub open spec fn begun(
        original: FilesView,
        config: Seq<u8>,
        auth: Seq<u8>,
        catalog: Option<Seq<u8>>,
    ) -> CommitView {
        CommitView {
            original,
            config,
            auth,
            catalog,
            phase: Phase::Guard,
            error: None,
            rollback_failed: false,
            undoing: false,
        }
    }

    /// What is to be done next.
    pub open spec fn task(self) -> TaskView {
        match self.phase {
            Phase::Guard => TaskView::Guard,
            Phase::Catalog => match self.catalog {
                Some(catalog) => TaskView::Perform(
                    FileStepView::Write(CodexFile::Catalog, catalog),
                ),
                None => TaskView::Finished,
            },
            Phase::Compare => TaskView::Compare,
            Phase::Neutral => TaskView::Perform(
                FileStepView::Write(CodexFile::Auth, neutral_login()),
            ),
            Phase::Config => TaskView::Perform(FileStepView::Write(CodexFile::Config, self.config)),
            Phase::Auth => TaskView::Perform(FileStepView::Write(CodexFile::Auth, self.auth)),
            Phase::RestoreNeutral => TaskView::Perform(
                FileStepView::Write(CodexFile::Auth, neutral_login()),
            ),
            Phase::RestoreCatalog => TaskView::Perform(
                restoring_step(CodexFile::Catalog, self.original.catalog),
            ),
            Phase::RestoreConfig => TaskView::Perform(
                restoring_step(CodexFile::Config, self.original.config),
            ),
            Phase::RestoreAuth => TaskView::Perform(
                restoring_step(CodexFile::Auth, self.original.auth),
            ),
            Phase::Over => TaskView::Finished,
        }
    }

    /// The phase after one that went well.
    pub open spec fn next_phase(self) -> Phase {
        match self.phase {
            Phase::Guard => if self.catalog is Some {
                Phase::Catalog
            } else {
                Phase::Compare
            },
            Phase::Catalog => Phase::Compare,
            Phase::Compare => Phase::Neutral,
            Phase::Neutral => Phase::Config,
            Phase::Config => Phase::Auth,
            Phase::Auth => Phase::Over,
            Phase::RestoreNeutral => Phase::RestoreCatalog,
            Phase::RestoreCatalog => Phase::RestoreConfig,
            Phase::RestoreConfig => Phase::RestoreAuth,
            Phase::RestoreAuth => Phase::Over,
            Phase::Over => Phase::Over,
        }
    }

    /// Whether the files are being given back what they held.
    pub open spec fn restoring(self) -> bool {
        ||| self.phase == Phase::RestoreNeutral
        ||| self.phase == Phase::RestoreCatalog
        ||| self.phase == Phase::RestoreConfig
        ||| self.phase == Phase::RestoreAuth
    }

    /// The change after a task that failed.
    pub open spec fn after_failure(self, failure: ErrorView) -> CommitView {
        if self.phase == Phase::Over {
            self
        } else if self.phase == Phase::Guard {
            CommitView { phase: Phase::Over, error: Some(failure), ..self }
        } else if self.restoring() {
            CommitView {
                phase: Phase::Over,
                error: Some(
                    match self.error {
                        Some(error) => combined_error(error, failure),
                        None => failure,
                    },
                ),
                rollback_failed: true,
                ..self
            }
        } else {
            CommitView { phase: Phase::RestoreNeutral, error: Some(failure), ..self }
        }
    }

    /// The change after a task. Files that already are what they are to be
    /// are not written.
    pub open spec fn after(self, report: ReportView) -> CommitView {
        if self.phase == Phase::Compare {
            if report == ReportView::Found(Some(self.config), Some(self.auth)) {
                CommitView { phase: Phase::Over, ..self }
            } else {
                CommitView { phase: Phase::Neutral, ..self }
            }
        } else {
            match report {
                ReportView::Failed(failure) => self.after_failure(failure),
                _ => CommitView { phase: self.next_phase(), ..self },
            }
        }
    }
}

/// What the files held before a change that went well. As long as it is kept,
/// the change can be undone.
pub struct AppliedConfigPatch {
    pub original: CodexFiles,
}

impl Commit {
    /// A change before anything is done.
    pub fn new(
        original: CodexFiles,
        config: Vec<u8>,
        auth: Vec<u8>,
        catalog: Option<Vec<u8>>,
    ) -> (commit: Self)
        ensures
            commit@ == CommitView::begun(original@, config@, auth@, bytes_view(catalog)),
    {
        Commit {
            original,
            config,
            auth,
            catalog,
            phase: Phase::Guard,
            error: None,
            rollback_failed: false,
            undoing: false,
        }
    }

    /// The undoing of a change.
    pub fn rollback_applied(applied: AppliedConfigPatch) -> (commit: Self)
        ensures
            commit@ == (CommitView {
                phase: Phase::RestoreNeutral,
                undoing: true,
                ..CommitView::begun(
                    applied.original@,
                    Seq::empty(),
                    Seq::empty(),
                    None,
                )
            }),
    {
        let config: Vec<u8> = Vec::new();
        let auth: Vec<u8> = Vec::new();
        assert(config@ =~= Seq::<u8>::empty());
        assert(auth@ =~= Seq::<u8>::empty());
        Commit {
            original: applied.original,
            config,
            auth,
            catalog: None,
            phase: Phase::RestoreNeutral,
            error: None,
            rollback_failed: false,
            undoing: true,
        }
    }

    /// What is to be done next.
    pub fn task(&self) -> (task: Task)
        ensures
            task@ == self@.task(),
    {
        match self.phase {
            Phase::Guard => Task::Guard,
            Phase::Catalog => match &self.catalog {
                Some(catalog) => Task::Perform(
                    FileStep::Write(CodexFile::Catalog, copy_bytes(catalog)),
                ),
                None => Task::Finished,
            },
            Phase::Compare => Task::Compare,
            Phase::Neutral => Task::Perform(
                FileStep::Write(CodexFile::Auth, make_neutral_login()),
            ),
            Phase::Config => Task::Perform(
                FileStep::Write(CodexFile::Config, copy_bytes(&self.config)),
            ),
            Phase::Auth => Task::Perform(FileStep::Write(CodexFile::Auth, copy_bytes(&self.auth))),
            Phase::RestoreNeutral => Task::Perform(
                FileStep::Write(CodexFile::Auth, make_neutral_login()),
            ),
            Phase::RestoreCatalog => Task::Perform(
                make_restoring_step(CodexFile::Catalog, &self.original.catalog),
            ),
            Phase::RestoreConfig => Task::Perform(
                make_restoring_step(CodexFile::Config, &self.original.config),
            ),
            Phase::RestoreAuth => Task::Perform(
                make_restoring_step(CodexFile::Auth, &self.original.auth),
            ),
            Phase::Over => Task::Finished,
        }
    }

    fn next_phase(&self) -> (phase: Phase)
        ensures
            phase == self@.next_phase(),
    {
        match self.phase {
            Phase::Guard => if self.catalog.is_some() {
                Phase::Catalog
            } else {
                Phase::Compare
            },
            Phase::Catalog => Phase::Compare,
            Phase::Compare => Phase::Neutral,
            Phase::Neutral => Phase::Config,
            Phase::Config => Phase::Auth,
            Phase::Auth => Phase::Over,
            Phase::RestoreNeutral => Phase::RestoreCatalog,
            Phase::RestoreCatalog => Phase::RestoreConfig,
            Phase::RestoreConfig => Phase::RestoreAuth,
            Phase::RestoreAuth => Phase::Over,
            Phase::Over => Phase::Over,
        }
    }

    fn fail(&mut self, failure: AppError)
        ensures
            final(self)@ == old(self)@.after_failure(failure@),
    {
        match self.phase {
            Phase::Over => {},
            Phase::Guard => {
                self.phase = Phase::Over;
                self.error = Some(failure);
            },
            Phase::RestoreNeutral
            | Phase::RestoreCatalog
            | Phase::RestoreConfig
            | Phase::RestoreAuth => {
                self.phase = Phase::Over;
                self.rollback_failed = true;
                let combined = match &self.error {
                    Some(error) => {
                        let mut message = error.message();
                        message.append("；Codex 原配置回滚失败，请手动检查配置文件：");
                        message.append(failure.message().as_str());
                        AppError::Internal(message)
                    },
                    None => failure,
                };
                self.error = Some(combined);
            },
            _ => {
                self.phase = Phase::RestoreNeutral;
                self.error = Some(failure);
            },
        }
    }

    /// Notes what came of the task.
    pub fn report(&mut self, report: Report)
        ensures
            final(self)@ == old(self)@.after(report@),
    {
        match self.phase {
            Phase::Compare => {
                let unchanged = match &report {
                    Report::Found(Some(config), Some(auth)) => same_bytes(config, &self.config)
                        && same_bytes(auth, &self.auth),
                    _ => false,
                };
                if unchanged {
                    self.phase = Phase::Over;
                } else {
                    self.phase = Phase::Neutral;
                }
            },
            _ => match report {
                Report::Failed(failure) => self.fail(failure),
                _ => {
                    self.phase = self.next_phase();
                },
            },
        }
    }

    /// What came of the change, once it is over.
    pub fn into_outcome(self) -> (outcome: Option<Result<AppliedConfigPatch, AppError>>)
        ensures
            outcome is Some <==> self@.phase == Phase::Over,
            outcome matches Some(Ok(applied)) ==> self@.error is None && applied.original@
                == self@.original,
            outcome matches Some(Err(error)) ==> self@.error == Some(error@),
    {
        match self.phase {
            Phase::Over => match self.error {
                Some(error) => Some(Err(error)),
                None => Some(Ok(AppliedConfigPatch { original: self.original })),
            },
            _ => None,
        }
    }
}

// ---------------------------------------------------------------------------
// Laws
// ---------------------------------------------------------------------------

impl CommitView {
    /// The list of models that is wanted.
    pub open spec fn wanted_catalog(self) -> Option<Seq<u8>> {
        match self.catalog {
            Some(catalog) => Some(catalog),
            None => self.original.catalog,
        }
    }

    /// Whether a configuration and a login may stand side by side: both as
    /// they were, both as they are to be, or with no login at all.
    pub open spec fn may_stand(self, disk: FilesView) -> bool {
        let neutral = Some(neutral_login());
        ||| disk.config == self.original.config && disk.auth == self.original.auth
        ||| disk.config == self.original.config && disk.auth == neutral
        ||| disk.config == Some(self.config) && disk.auth == neutral
        ||| disk.config == Some(self.config) && disk.auth == Some(self.auth)
    }

    /// Whether the files are what they have to be in this phase.
    pub open spec fn fits(self, disk: FilesView) -> bool {
        let neutral = Some(neutral_login());
        match self.phase {
            Phase::Guard => disk == self.original && self.error is None && !self.undoing,
            Phase::Catalog => disk == self.original && self.catalog is Some && self.error is None
                && !self.undoing,
            Phase::Compare | Phase::Neutral => disk == (FilesView {
                catalog: self.wanted_catalog(),
                ..self.original
            }) && self.error is None && !self.undoing,
            Phase::Config => disk == (FilesView {
                catalog: self.wanted_catalog(),
                auth: neutral,
                ..self.original
            }) && self.error is None && !self.undoing,
            Phase::Auth => disk == (FilesView {
                catalog: self.wanted_catalog(),
                auth: neutral,
                config: Some(self.config),
            }) && self.error is None && !self.undoing,
            Phase::RestoreNeutral => self.undoing || (self.may_stand(disk) && self.error is Some),
            Phase::RestoreCatalog => disk.auth == neutral && (self.undoing || (self.error is Some
                && (disk.config == self.original.config || disk.config == Some(self.config)))),
            Phase::RestoreConfig => disk.auth == neutral && disk.catalog == self.original.catalog
                && (self.undoing || (self.error is Some && (disk.config == self.original.config
                || disk.config == Some(self.config)))),
            Phase::RestoreAuth => disk == (FilesView { auth: neutral, ..self.original }) && (
            self.undoing || self.error is Some),
            Phase::Over => {
                &&& !self.rollback_failed && (self.error is Some || self.undoing) ==> disk
                    == self.original
                &&& !self.rollback_failed && self.error is None && !self.undoing ==> disk == (
                FilesView {
                    config: Some(self.config),
                    auth: Some(self.auth),
                    catalog: self.wanted_catalog(),
                })
                &&& !self.undoing ==> self.may_stand(disk)
            },
        }
    }

    /// The files after a task, where a change that is reported as done has
    /// been made and one that is reported as failed has not.
    pub open spec fn performed(self, disk: FilesView, report: ReportView) -> FilesView {
        match self.task() {
            TaskView::Perform(step) => if report is Failed {
                disk
            } else {
                disk.after(step)
            },
            _ => disk,
        }
    }

    /// How many phases may follow at most.
    pub open spec fn remaining(self) -> int {
        match self.phase {
            Phase::Guard => 10,
            Phase::Catalog => 9,
            Phase::Compare => 8,
            Phase::Neutral => 7,
            Phase::Config => 6,
            Phase::Auth => 5,
            Phase::RestoreNeutral => 4,
            Phase::RestoreCatalog => 3,
            Phase::RestoreConfig => 2,
            Phase::RestoreAuth => 1,
            Phase::Over => 0,
        }
    }
}

/// Whatever fails, and wherever the change is broken off: a login never
/// stands beside a configuration that it was not meant for. A change that
/// goes well leaves the files as they are to be; one that does not, and that
/// can be undone, leaves them as they were. The change comes to an end.
pub proof fn law_logins_keep_to_their_configuration(
    commit: CommitView,
    disk: FilesView,
    report: ReportView,
)
    requires
        commit.fits(disk),
        report matches ReportView::Found(config, auth) ==> config == disk.config && auth
            == disk.auth,
    ensures
        ({
            let after = commit.after(report);
            let written = commit.performed(disk, report);
            &&& after.fits(written)
            &&& !commit.undoing ==> commit.may_stand(disk) && commit.may_stand(written)
            &&& commit.phase != Phase::Over ==> after.remaining() < commit.remaining()
            &&& commit.phase == Phase::Over ==> after == commit
        }),
{
}

/// Nothing is written unless the guard has passed, and its own error is what
/// is told then.
pub proof fn law_nothing_is_written_unguarded(
    original: FilesView,
    config: Seq<u8>,
    auth: Seq<u8>,
    catalog: Option<Seq<u8>>,
    failure: ErrorView,
)
    ensures
        ({
            let begun = CommitView::begun(original, config, auth, catalog);
            let after = begun.after(ReportView::Failed(failure));
            &&& begun.fits(original)
            &&& begun.task() == TaskView::Guard
            &&& after.phase == Phase::Over
            &&& after.error == Some(failure)
        }),
{
}

/// Undoing a change gives the files back what they held, whatever they hold
/// by then.
pub proof fn law_undoing_restores(original: FilesView, disk: FilesView)
    ensures
        ({
            let begun = CommitView {
                phase: Phase::RestoreNeutral,
                undoing: true,
                ..CommitView::begun(original, Seq::empty(), Seq::empty(), None)
            };
            let first = begun.after(ReportView::Done);
            let second = first.after(ReportView::Done);
            let third = second.after(ReportView::Done);
            let last = third.after(ReportView::Done);
            let disk = begun.performed(disk, ReportView::Done);
            let disk = first.performed(disk, ReportView::Done);
            let disk = second.performed(disk, ReportView::Done);
            let disk = third.performed(disk, ReportView::Done);
            &&& last.phase == Phase::Over
            &&& last.error is None
            &&& disk == original
        }),
{
}

} // verus!
