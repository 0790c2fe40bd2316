//! What a change of the files of Codex writes, and in which order.

use crate::codex_document;
use crate::codex_files;
use crate::codex_files::{
    CodexFile, CommitView, FileReads, FileStepView, FilesView, Phase, ReportView, TaskView,
};
use crate::codex_preview;
use crate::config_manager;
use crate::config_manager::{LoginView, PendingView};
use crate::document_laws;
use crate::document_laws::{is_file_of, service_in};
use crate::headers;
use crate::json;
use crate::json::JsonView;
use crate::models;
use crate::models::{AppError, CodexAuthCredential, CredentialView, ErrorView, ProviderProfile};
use crate::proxy::ActivationTarget;
use crate::text;
use crate::toml::{table_entry, text_entry};
use vstd::prelude::*;

verus! {

// ---------------------------------------------------------------------------
// Headers
// ---------------------------------------------------------------------------

/// Whether no name occurs twice.
pub open spec fn have_own_names(pairs: Seq<(Seq<char>, Seq<char>)>) -> bool {
    forall|i: int, j: int|
        0 <= i < j < pairs.len() ==> (#[trigger] pairs[i]).0 != (#[trigger] pairs[j]).0
}

proof fn lemma_kept_names(pairs: Seq<(Seq<char>, Seq<char>)>)
    requires
        have_own_names(pairs),
    ensures
        have_own_names(codex_preview::without_user_agent(pairs)),
        forall|k: int|
            0 <= k < codex_preview::without_user_agent(pairs).len() ==> {
                &&& pairs.contains(#[trigger] codex_preview::without_user_agent(pairs)[k])
                &&& text::lowered(codex_preview::without_user_agent(pairs)[k].0) != text::lowered(
                    "user-agent"@,
                )
            },
    decreases pairs.len(),
{
    if pairs.len() > 0 {
        let rest = pairs.drop_last();
        let last = pairs[pairs.len() - 1];
        assert forall|i: int, j: int| 0 <= i < j < rest.len() implies (#[trigger] rest[i]).0 != (
        #[trigger] rest[j]).0 by {
            assert(rest[i] == pairs[i] && rest[j] == pairs[j]);
        }
        lemma_kept_names(rest);
        let earlier = codex_preview::without_user_agent(rest);
        let kept = codex_preview::without_user_agent(pairs);
        assert forall|k: int| 0 <= k < earlier.len() implies pairs.contains(#[trigger] earlier[k])
            && earlier[k].0 != last.0 by {
            let i = choose|i: int| 0 <= i < rest.len() && rest[i] == earlier[k];
            assert(pairs[i] == earlier[k]);
            assert(pairs[i].0 != pairs[pairs.len() - 1].0);
        }
        assert(pairs.contains(last));
        assert forall|i: int, j: int| 0 <= i < j < kept.len() implies (#[trigger] kept[i]).0 != (
        #[trigger] kept[j]).0 by {
            assert(kept[i] == earlier[i]);
            if j < earlier.len() {
                assert(kept[j] == earlier[j]);
            }
        }
        assert forall|k: int| 0 <= k < kept.len() implies pairs.contains(#[trigger] kept[k])
            && text::lowered(kept[k].0) != text::lowered("user-agent"@) by {
            if k < earlier.len() {
                assert(kept[k] == earlier[k]);
            }
        }
    }
}

proof fn lemma_place(pairs: Seq<(Seq<char>, Seq<char>)>, name: Seq<char>)
    ensures
        0 <= codex_preview::place_of(pairs, name) <= pairs.len(),
    decreases pairs.len(),
{
    if pairs.len() > 0 && text::precedes(pairs[0].0, name) {
        lemma_place(pairs.drop_first(), name);
    }
}

proof fn lemma_own_names(pairs: Seq<(Seq<char>, Seq<char>)>, user_agent: Seq<char>)
    requires
        have_own_names(pairs),
    ensures
        have_own_names(codex_preview::service_headers(pairs, user_agent)),
{
    reveal_strlit("User-Agent");
    reveal_strlit("user-agent");
    assert(text::lowered("User-Agent"@) =~= text::lowered("user-agent"@));
    lemma_kept_names(pairs);
    let kept = codex_preview::without_user_agent(pairs);
    let place = codex_preview::place_of(kept, "User-Agent"@);
    lemma_place(kept, "User-Agent"@);
    let all = codex_preview::service_headers(pairs, user_agent);
    assert forall|i: int, j: int| 0 <= i < j < all.len() implies (#[trigger] all[i]).0 != (
    #[trigger] all[j]).0 by {
        let a = if i < place {
            i
        } else {
            i - 1
        };
        let b = if j < place {
            j
        } else {
            j - 1
        };
        if i != place {
            assert(all[i] == kept[a]);
        }
        if j != place {
            assert(all[j] == kept[b]);
        }
        if i == place {
            assert(text::lowered(kept[b].0) != text::lowered("User-Agent"@));
        } else if j == place {
            assert(text::lowered(kept[a].0) != text::lowered("User-Agent"@));
        } else {
            assert(kept[a].0 != kept[b].0);
        }
    }
}

/// The headers of a service are written under their names, but for a user agent, in
/// whose place stands the one that is set here.
pub proof fn law_given_headers_are_written(
    pairs: Seq<(Seq<char>, Seq<char>)>,
    user_agent: Seq<char>,
    i: int,
)
    requires
        have_own_names(pairs),
    ensures
        ({
            let written = codex_document::text_entries(
                codex_preview::service_headers(pairs, user_agent),
            );
            &&& text_entry(written, "User-Agent"@) == Some(user_agent)
            &&& 0 <= i < pairs.len() && text::lowered(pairs[i].0) != text::lowered("User-Agent"@)
                ==> text_entry(written, pairs[i].0) == Some(pairs[i].1)
        }),
{
    let all = codex_preview::service_headers(pairs, user_agent);
    lemma_own_names(pairs, user_agent);
    let own = ("User-Agent"@, user_agent);
    document_laws::law_headers_of_a_service(pairs, user_agent, own);
    lemma_written(all, own);
    if 0 <= i < pairs.len() && text::lowered(pairs[i].0) != text::lowered("User-Agent"@) {
        assert(pairs.contains(pairs[i]));
        document_laws::law_headers_of_a_service(pairs, user_agent, pairs[i]);
        lemma_written(all, pairs[i]);
    }
}

proof fn lemma_written(pairs: Seq<(Seq<char>, Seq<char>)>, pair: (Seq<char>, Seq<char>))
    requires
        have_own_names(pairs),
        pairs.contains(pair),
    ensures
        text_entry(codex_document::text_entries(pairs), pair.0) == Some(pair.1),
{
    let k = choose|k: int| 0 <= k < pairs.len() && pairs[k] == pair;
    document_laws::law_headers_are_all_written(pairs, k);
    assert(forall|j: int| k < j < pairs.len() ==> (#[trigger] pairs[j]).0 != pairs[k].0);
}

/// A change to a service writes the headers of its profile, with the user agent
/// that is set here.
pub proof fn law_change_writes_the_headers(
    reads: FileReads,
    provider: ProviderProfile,
    target: ActivationTarget,
    catalog: Seq<JsonView>,
    user_agent: Seq<char>,
    i: int,
)
    requires
        have_own_names(headers::pair_texts(provider.headers@)),
    ensures
        config_manager::planned(reads, provider, target, catalog, user_agent) matches Ok(plan) ==> {
            &&& service_in(plan.root) matches Some(service)
            &&& table_entry(service, "http_headers"@) matches Some(written)
            &&& text_entry(written, "User-Agent"@) == Some(user_agent)
            &&& 0 <= i < provider.headers.len() && text::lowered(provider.headers@[i].0@)
                != text::lowered("User-Agent"@) ==> text_entry(written, provider.headers@[i].0@)
                == Some(provider.headers@[i].1@)
        },
{
    let pairs = headers::pair_texts(provider.headers@);
    let all = codex_preview::service_headers(pairs, user_agent);
    law_given_headers_are_written(pairs, user_agent, i);
    if let Ok(plan) = config_manager::planned(reads, provider, target, catalog, user_agent) {
        let (original, source, root) = config_manager::starting_point(reads, provider)->Ok_0;
        document_laws::law_service_is_described(
            root,
            provider.name@,
            target.base_url@,
            all,
            plan.model,
        );
        lemma_place(codex_preview::without_user_agent(pairs), "User-Agent"@);
        assert(all.len() > 0);
    }
}

/// A change to a service can be made where the files can be read, the service has a
/// key and a model, and the configuration can be read and has room for a service.
pub proof fn law_when_a_change_can_be_made(
    reads: FileReads,
    provider: ProviderProfile,
    target: ActivationTarget,
    catalog: Seq<JsonView>,
    user_agent: Seq<char>,
    files: FilesView,
    root: codex_document::Entries,
    model: Seq<char>,
    printed: Seq<char>,
)
    requires
        codex_files::captured_files(reads) == Ok::<FilesView, ErrorView>(files),
        provider.api_key matches Some(key) && !text::blank(key@),
        files.config is None ==> codex_document::configuration(Seq::empty()) == Ok::<
            codex_document::Entries,
            ErrorView,
        >(root),
        files.config matches Some(bytes) ==> (text::utf8_text_of(bytes) matches Some(source)
            && codex_document::configuration(source) == Ok::<codex_document::Entries, ErrorView>(
            root,
        )),
        codex_document::effective_model(root, config_manager::candidates(provider)) == Some(model),
        codex_document::service_problem(root, model) is None,
        json::pretty_text(
            codex_preview::key_login(config_manager::login_key(provider, target)),
        ) == Some(printed),
    ensures
        config_manager::planned(reads, provider, target, catalog, user_agent) matches Ok(plan)
            && plan.model == model && plan.original == files,
{
}

// ---------------------------------------------------------------------------
// Turning to an account
// ---------------------------------------------------------------------------

/// A change to an account writes its login: a token as a token, any other
/// credential as it was serialised. What it starts from is what was found.
pub proof fn law_change_to_an_account(
    reads: FileReads,
    credential: CodexAuthCredential,
    serialized: Result<Vec<u8>, String>,
    managed: Option<Seq<char>>,
    files: FilesView,
    root: codex_document::Entries,
    login: Seq<u8>,
)
    requires
        config_manager::official_plan(reads, credential, serialized, None, managed) == Ok::<
            (FilesView, codex_document::Entries, Seq<u8>),
            ErrorView,
        >((files, root, login)),
    ensures
        codex_files::captured_files(reads) == Ok::<FilesView, ErrorView>(files),
        credential.auth_mode@ == "personal_access_token"@ ==> exists|document: JsonView| #[trigger]
            is_file_of(login, document) && document.text_at("personal_access_token"@) == Some(
                credential.tokens.access_token@,
            ) && document.get("OPENAI_API_KEY"@) == Some(JsonView::Null),
        !models::is_personal_token(credential@) ==> (serialized matches Ok(bytes) && login
            == bytes@.push(10u8)),
        !root.contains_key("model_provider"@),
{
    let document = codex_preview::token_login(credential.tokens.access_token@);
    document_laws::law_token_login(credential.tokens.access_token@);
    let source = codex_files::config_text(files.config)->Ok_0;
    let before = codex_document::configuration(source)->Ok_0;
    document_laws::law_official_configuration(before, managed);
    if models::is_personal_token(credential@) {
        let printed = json::pretty_text(document)->0;
        assert(login == text::bytes_of_text(printed + "\n"@));
        assert(is_file_of(login, document));
    }
}

/// An account that cannot be used is not turned to, and why is told.
pub proof fn law_unusable_accounts_are_not_turned_to(
    reads: FileReads,
    credential: CodexAuthCredential,
    serialized: Result<Vec<u8>, String>,
    problem: AppError,
    managed: Option<Seq<char>>,
)
    ensures
        config_manager::official_plan(
            reads,
            credential,
            serialized,
            Some(problem),
            managed,
        ) == Err::<(FilesView, codex_document::Entries, Seq<u8>), ErrorView>(problem@),
{
}

/// What stands in a login file: a credential where one can be read, or else a
/// token, without white space around it; blank files and empty objects hold none.
pub proof fn law_logins_are_read(bytes: Seq<u8>, credential: CredentialView, document: JsonView)
    ensures
        config_manager::login_in(Seq::empty(), Some(credential)) is Empty,
        config_manager::login_in(seq![123u8, 125u8], Some(credential)) is Empty,
        config_manager::login_in(codex_files::neutral_login(), Some(credential)) is Empty,
        bytes.len() > 3 && bytes[0] == 123 ==> config_manager::login_in(bytes, Some(credential))
            == LoginView::Credential(credential),
        bytes.len() > 3 && bytes[0] == 123 && json::parsed_bytes(bytes) == Some(document) ==> (
        document.text_at("personal_access_token"@) matches Some(token) ==> (!text::blank(token)
            ==> config_manager::login_in(bytes, None) == LoginView::Token(text::trimmed(token)))),
        bytes.len() > 3 && bytes[0] == 123 && json::parsed_bytes(bytes) == Some(document)
            && !document.has("personal_access_token"@) ==> config_manager::login_in(bytes, None)
            is Unreadable,
{
    if bytes.len() > 3 && bytes[0] == 123 {
        assert(!codex_preview::is_blank_byte(bytes[0]));
        assert(!codex_preview::blank_bytes(bytes));
    }
    assert(codex_preview::blank_bytes(Seq::empty()));
}

/// A login that is to be changed is an object, or nothing.
pub proof fn law_logins_are_objects(bytes: Seq<u8>, document: JsonView)
    ensures
        codex_preview::login_in(Seq::empty()) == Ok::<JsonView, ErrorView>(json::empty_object()),
        bytes.len() > 0 && bytes[0] == 123 && json::read_bytes(bytes) == Ok::<
            JsonView,
            Seq<char>,
        >(document) && document is Object ==> codex_preview::login_in(bytes) == Ok::<
            JsonView,
            ErrorView,
        >(document),
        bytes.len() > 0 && bytes[0] == 91 && json::read_bytes(bytes) == Ok::<JsonView, Seq<char>>(
            document,
        ) && !(document is Object) ==> codex_preview::login_in(bytes) is Err,
{
    assert(codex_preview::blank_bytes(Seq::empty()));
    if bytes.len() > 0 && (bytes[0] == 123 || bytes[0] == 91) {
        assert(!codex_preview::is_blank_byte(bytes[0]));
    }
}

// ---------------------------------------------------------------------------
// Writing
// ---------------------------------------------------------------------------

/// A change is written in this order: the list of models where there is one, an
/// empty login, the configuration, the login. Files that already hold the change
/// are left alone.
pub proof fn law_order_of_writing(
    original: FilesView,
    config: Seq<u8>,
    auth: Seq<u8>,
    catalog: Option<Seq<u8>>,
)
    ensures
        ({
            let start = CommitView::begun(original, config, auth, catalog);
            let guarded = start.after(ReportView::Done);
            let listed = if catalog is Some {
                guarded.after(ReportView::Done)
            } else {
                guarded
            };
            let compared = listed.after(ReportView::Found(original.config, original.auth));
            let emptied = compared.after(ReportView::Done);
            let configured = emptied.after(ReportView::Done);
            let over = configured.after(ReportView::Done);
            &&& start.task() is Guard
            &&& catalog matches Some(list) ==> guarded.task() == TaskView::Perform(
                FileStepView::Write(CodexFile::Catalog, list),
            )
            &&& listed.task() is Compare
            &&& original.config != Some(config) || original.auth != Some(auth) ==> {
                &&& compared.task() matches TaskView::Perform(FileStepView::Write(file, bytes))
                    && file == CodexFile::Auth && bytes == seq![123u8, 125u8, 10u8]
                &&& emptied.task() == TaskView::Perform(
                    FileStepView::Write(CodexFile::Config, config),
                )
                &&& configured.task() == TaskView::Perform(
                    FileStepView::Write(CodexFile::Auth, auth),
                )
                &&& over.task() is Finished
                &&& over.error is None
            }
            &&& original.config == Some(config) && original.auth == Some(auth)
                ==> compared.task() is Finished && compared.error is None
        }),
{
}

/// A change that fails while it is written is taken back: an empty login first, then
/// the list of models, the configuration and the login as they were. The error stays,
/// and one in taking back is told after it.
pub proof fn law_order_of_taking_back(commit: CommitView, error: ErrorView, failure: ErrorView)
    requires
        commit.phase == Phase::Catalog || commit.phase == Phase::Neutral || commit.phase
            == Phase::Config || commit.phase == Phase::Auth,
        !commit.rollback_failed,
    ensures
        ({
            let failed = commit.after(ReportView::Failed(error));
            let first = failed.after(ReportView::Done);
            let second = first.after(ReportView::Done);
            let third = second.after(ReportView::Done);
            let over = third.after(ReportView::Done);
            let worse = failed.after(ReportView::Failed(failure));
            &&& failed.error == Some(error)
            &&& failed.task() matches TaskView::Perform(FileStepView::Write(file, bytes)) && file
                == CodexFile::Auth && bytes == seq![123u8, 125u8, 10u8]
            &&& first.task() == TaskView::Perform(
                match commit.original.catalog {
                    Some(bytes) => FileStepView::Write(CodexFile::Catalog, bytes),
                    None => FileStepView::Remove(CodexFile::Catalog),
                },
            )
            &&& second.task() == TaskView::Perform(
                match commit.original.config {
                    Some(bytes) => FileStepView::Write(CodexFile::Config, bytes),
                    None => FileStepView::Remove(CodexFile::Config),
                },
            )
            &&& third.task() == TaskView::Perform(
                match commit.original.auth {
                    Some(bytes) => FileStepView::Write(CodexFile::Auth, bytes),
                    None => FileStepView::Remove(CodexFile::Auth),
                },
            )
            &&& over.task() is Finished
            &&& over.error == Some(error)
            &&& !over.rollback_failed
            &&& worse.task() is Finished
            &&& worse.rollback_failed
            &&& worse.error matches Some(told) && text::begins_with(told.message(), error.message())
                && text::finishes_with(told.message(), failure.message())
        }),
{
    let told = error.message() + "；Codex 原配置回滚失败，请手动检查配置文件："@
        + failure.message();
    assert(told.take(error.message().len() as int) =~= error.message());
    assert(told.skip(told.len() - failure.message().len()) =~= failure.message());
}

/// What a step does to the files: it sets or removes one, and leaves the others.
pub proof fn law_steps_change_one_file(files: FilesView, bytes: Seq<u8>)
    ensures
        files.after(FileStepView::Write(CodexFile::Config, bytes)) == (FilesView {
            config: Some(bytes),
            auth: files.auth,
            catalog: files.catalog,
        }),
        files.after(FileStepView::Write(CodexFile::Auth, bytes)) == (FilesView {
            config: files.config,
            auth: Some(bytes),
            catalog: files.catalog,
        }),
        files.after(FileStepView::Write(CodexFile::Catalog, bytes)) == (FilesView {
            config: files.config,
            auth: files.auth,
            catalog: Some(bytes),
        }),
        files.after(FileStepView::Remove(CodexFile::Auth)) == (FilesView {
            config: files.config,
            auth: None,
            catalog: files.catalog,
        }),
{
}

// ---------------------------------------------------------------------------
// Changes that wait
// ---------------------------------------------------------------------------

/// A change that was prepared can be confirmed for ten minutes.
pub proof fn law_changes_wait_ten_minutes(patch: PendingView, now: u64)
    ensures
        config_manager::is_live(patch, now) <==> now - patch.created_at < 600000000000,
{
}

/// A change is found by its identifier, and gone once it was taken out.
pub proof fn law_changes_are_found(pending: Seq<PendingView>, id: Seq<char>)
    ensures
        config_manager::patch_with_id(pending, id) matches Some(patch) ==> patch.id == id
            && pending.contains(patch),
        config_manager::patch_with_id(pending, id) is None <==> forall|i: int|
            0 <= i < pending.len() ==> (#[trigger] pending[i]).id != id,
        config_manager::patch_with_id(config_manager::without_id(pending, id), id) is None,
    decreases pending.len(),
{
    if pending.len() > 0 {
        let rest = pending.drop_last();
        let last = pending[pending.len() - 1];
        law_changes_are_found(rest, id);
        assert(forall|i: int| 0 <= i < rest.len() ==> #[trigger] rest[i] == pending[i]);
        assert(pending.contains(last));
        if last.id != id {
            let earlier = config_manager::without_id(rest, id);
            assert(earlier.push(last).drop_last() =~= earlier);
            if let Some(patch) = config_manager::patch_with_id(rest, id) {
                let i = choose|i: int| 0 <= i < rest.len() && rest[i] == patch;
                assert(pending[i] == patch);
            }
            assert forall|i: int|
                0 <= i < pending.len() && config_manager::patch_with_id(rest, id)
                    is None implies (#[trigger] pending[i]).id != id by {
                if i < rest.len() {
                    assert(rest[i] == pending[i]);
                }
            }
            if config_manager::patch_with_id(rest, id) is Some {
                let patch = config_manager::patch_with_id(rest, id)->0;
                let i = choose|i: int| 0 <= i < rest.len() && rest[i] == patch;
                assert(pending[i].id == id);
            }
        }
    }
}

} // verus!
