//! The results that a module returns for a query, and the checks that each must pass
//! before the host hands it on to the launcher.

use vstd::prelude::*;
use vstd::string::StringSliceAdditionalSpecFns;
use vstd::utf8::encode_utf8;

use crate::origin::{https_origin, origin_of, SLASH};
use crate::text::{
    command_error, command_is_valid, strings_view, text_error, text_is_valid, valid_text, validate_command,
    validate_delay, ResultError, ResultErrorView, MAX_SCHEDULE_DELAY,
};

verus! {

/// The byte of `.`.
pub const DOT: u8 = 0x2e;

/// The longest package icon path, in bytes.
pub const MAX_ICON_PATH: usize = 512;

/// The longest URL of an open-URL action, in bytes.
pub const MAX_OPEN_URL: usize = 4096;

/// The icon of a result.
#[derive(Debug)]
pub enum Icon {
    /// A path to a file inside the module's package.
    PackagePath(String),
    /// A short text, such as an emoji.
    Text(String),
    /// No icon.
    NoIcon,
}

/// What the launcher does when the user picks a result.
#[derive(Debug)]
pub enum Action {
    CopyText(String),
    OpenUrl(String),
    OpenPath(String),
    ShowMessage(String),
    /// A notification: title and body.
    Notify(String, String),
    /// A command line that the launcher runs once the user approves it.
    RunApprovedCommand(Vec<String>),
    /// A notification shown after a delay in seconds: delay, title and body.
    ScheduleNotification(u64, String, String),
    /// An approved command run after a delay in seconds.
    ScheduleCommand(u64, Vec<String>),
    /// Nothing happens.
    NoAction,
}

/// One result of a query.
#[derive(Debug)]
pub struct ResultItem {
    pub id: String,
    pub title: String,
    pub subtitle: String,
    pub icon: Icon,
    pub score: Option<u32>,
    pub action: Action,
}

/// Whether a component `..` starts at byte `i` of `b`: a `..` between separators or ends.
pub open spec fn parent_component_at(b: Seq<u8>, i: int) -> bool {
    &&& 0 <= i
    &&& i + 2 <= b.len()
    &&& (i == 0 || b[i - 1] == SLASH)
    &&& b[i] == DOT
    &&& b[i + 1] == DOT
    &&& (i + 2 == b.len() || b[i + 2] == SLASH)
}

/// Whether the path `b` starts with the component `.`.
pub open spec fn starts_with_current_dir(b: Seq<u8>) -> bool {
    b.len() >= 1 && b[0] == DOT && (b.len() == 1 || b[1] == SLASH)
}

/// Whether `b` is an acceptable package icon path: 1 to 512 bytes, relative, and made of
/// plain names only, as a Unix path splits into components: it does not start with `/` or
/// with the component `.`, and no component is `..` (repeated separators, and `.` other than
/// at the start, are no components).
pub open spec fn package_path_is_valid(b: Seq<u8>) -> bool {
    &&& 0 < b.len() <= MAX_ICON_PATH
    &&& b[0] != SLASH
    &&& !starts_with_current_dir(b)
    &&& forall|i: int| !#[trigger] parent_component_at(b, i)
}

/// The first reason, if any, for which `icon` is refused.
pub open spec fn icon_error(icon: Icon) -> Option<ResultErrorView> {
    match icon {
        Icon::PackagePath(p) => if package_path_is_valid(encode_utf8(p@)) {
            None
        } else {
            Some(ResultErrorView::InvalidIconPath)
        },
        Icon::Text(t) => text_error("text icon"@, t@, 1, 16),
        Icon::NoIcon => None,
    }
}


/// The refusal, if any, of a command action's command line.
pub open spec fn command_refusal(command: Seq<String>) -> Option<ResultErrorView> {
    if command_is_valid(strings_view(command)) {
        None
    } else {
        Some(command_error(strings_view(command)))
    }
}

/// The refusal, if any, of a schedule delay.
pub open spec fn delay_refusal(delay: u64) -> Option<ResultErrorView> {
    if delay <= MAX_SCHEDULE_DELAY {
        None
    } else {
        Some(ResultErrorView::DelayTooLong)
    }
}

/// The first refusal among `a` and `b`, checked in that order.
pub open spec fn first_refusal(a: Option<ResultErrorView>, b: Option<ResultErrorView>) -> Option<
    ResultErrorView,
> {
    if a is Some {
        a
    } else {
        b
    }
}

/// The refusal, if any, of a notification title and body.
pub open spec fn notification_refusal(title: Seq<char>, body: Seq<char>) -> Option<ResultErrorView> {
    first_refusal(
        text_error("notification title"@, title, 1, 256),
        text_error("notification body"@, body, 0, 4096),
    )
}

/// The first reason, if any, for which `action` is refused.
pub open spec fn action_error(action: Action) -> Option<ResultErrorView> {
    match action {
        Action::CopyText(t) => text_error("copy action"@, t@, 0, 65536),
        Action::OpenUrl(u) => if encode_utf8(u@).len() <= MAX_OPEN_URL && origin_of(
            encode_utf8(u@),
        ) is Some {
            None
        } else {
            Some(ResultErrorView::InvalidOpenUrl)
        },
        Action::OpenPath(p) => text_error("open path action"@, p@, 1, 4096),
        Action::ShowMessage(m) => text_error("message action"@, m@, 0, 4096),
        Action::Notify(title, body) => notification_refusal(title@, body@),
        Action::RunApprovedCommand(command) => command_refusal(command@),
        Action::ScheduleNotification(delay, title, body) => first_refusal(
            delay_refusal(delay),
            notification_refusal(title@, body@),
        ),
        Action::ScheduleCommand(delay, command) => first_refusal(
            delay_refusal(delay),
            command_refusal(command@),
        ),
        Action::NoAction => None,
    }
}

/// The first reason, if any, for which `item` is refused: its ID (1 to 256 characters),
/// title (1 to 512), subtitle (up to 1024), icon and action, checked in that order.
pub open spec fn item_error(item: ResultItem) -> Option<ResultErrorView> {
    first_refusal(
        text_error("result ID"@, item.id@, 1, 256),
        first_refusal(
            text_error("result title"@, item.title@, 1, 512),
            first_refusal(
                text_error("result subtitle"@, item.subtitle@, 0, 1024),
                first_refusal(icon_error(item.icon), action_error(item.action)),
            ),
        ),
    )
}

/// Checks a package icon path.
fn check_package_path(path: &str) -> (r: bool)
    ensures
        r == package_path_is_valid(path.spec_bytes()),
{
    let b = path.as_bytes();
    let n = b.len();
    if n == 0 || n > MAX_ICON_PATH || b[0] == SLASH {
        return false;
    }
    if b[0] == DOT && (n == 1 || b[1] == SLASH) {
        return false;
    }
    let mut i: usize = 0;
    while i < n
        invariant
            b@ == path.spec_bytes(),
            n == b@.len(),
            i <= n,
            forall|k: int| 0 <= k < i ==> !#[trigger] parent_component_at(b@, k),
        decreases n - i,
    {
        if (i == 0 || b[i - 1] == SLASH) && n - i >= 2 && b[i] == DOT && b[i + 1] == DOT
            && (i + 2 == n || b[i + 2] == SLASH) {
            assert(parent_component_at(b@, i as int));
            return false;
        }
        i = i + 1;
    }
    assert forall|k: int| !#[trigger] parent_component_at(b@, k) by {
        if 0 <= k < n {
        }
    }
    true
}

/// Checks a notification title (1 to 256 characters) and body (up to 4096).
fn check_notification(title: &String, body: &String) -> (r: Result<(), ResultError>)
    ensures
        r is Ok <==> notification_refusal(title@, body@) is None,
        r matches Err(e) ==> notification_refusal(title@, body@) == Some(e@),
{
    valid_text("notification title", title.as_str(), 1, 256)?;
    valid_text("notification body", body.as_str(), 0, 4096)
}

/// Checks the icon of a result.
fn check_icon(icon: &Icon) -> (r: Result<(), ResultError>)
    ensures
        r is Ok <==> icon_error(*icon) is None,
        r matches Err(e) ==> icon_error(*icon) == Some(e@),
{
    match icon {
        Icon::PackagePath(path) => {
            if check_package_path(path.as_str()) {
                Ok(())
            } else {
                Err(ResultError::InvalidIconPath)
            }
        },
        Icon::Text(text) => valid_text("text icon", text.as_str(), 1, 16),
        Icon::NoIcon => Ok(()),
    }
}

/// Checks the action of a result.
fn check_action(action: &Action) -> (r: Result<(), ResultError>)
    ensures
        r is Ok <==> action_error(*action) is None,
        r matches Err(e) ==> action_error(*action) == Some(e@),
{
    match action {
        Action::CopyText(text) => valid_text("copy action", text.as_str(), 0, 64 * 1024),
        Action::OpenUrl(url) => {
            let u = url.as_str();
            if u.as_bytes().len() > MAX_OPEN_URL || https_origin(u).is_none() {
                Err(ResultError::InvalidOpenUrl)
            } else {
                Ok(())
            }
        },
        Action::OpenPath(path) => valid_text("open path action", path.as_str(), 1, 4096),
        Action::ShowMessage(message) => valid_text("message action", message.as_str(), 0, 4096),
        Action::Notify(title, body) => check_notification(title, body),
        Action::RunApprovedCommand(command) => validate_command(command.as_slice()),
        Action::ScheduleNotification(delay, title, body) => {
            validate_delay(*delay)?;
            check_notification(title, body)
        },
        Action::ScheduleCommand(delay, command) => {
            validate_delay(*delay)?;
            validate_command(command.as_slice())
        },
        Action::NoAction => Ok(()),
    }
}

/// Checks one result that a module returned and hands it back unchanged where it passes.
/// It is refused with the first of these that fails: an ID of 1 to 256 characters, a title
/// of 1 to 512, a subtitle of up to 1024 (none with a control character), an icon and an
/// action whose contents are within their limits.
pub fn map_result(value: ResultItem) -> (r: Result<ResultItem, ResultError>)
    ensures
        r is Ok <==> item_error(value) is None,
        r matches Ok(v) ==> v == value,
        r matches Err(e) ==> item_error(value) == Some(e@),
{
    valid_text("result ID", value.id.as_str(), 1, 256)?;
    valid_text("result title", value.title.as_str(), 1, 512)?;
    valid_text("result subtitle", value.subtitle.as_str(), 0, 1024)?;
    check_icon(&value.icon)?;
    check_action(&value.action)?;
    Ok(value)
}


/// How many of `n` results the host keeps where the query asked for at most `max_results`.
pub open spec fn kept_count(n: int, max_results: int) -> int {
    if n <= max_results {
        n
    } else {
        max_results
    }
}

/// The host keeps as many results as there are where they are no more than were asked for,
/// and as many as were asked for otherwise: the smaller of the two counts.
pub proof fn lemma_kept_count_is_the_smaller(n: int, max_results: int)
    ensures
        kept_count(n, max_results) <= n,
        kept_count(n, max_results) <= max_results,
        kept_count(n, max_results) == n || kept_count(n, max_results) == max_results,
        n <= max_results ==> kept_count(n, max_results) == n,
{
}

/// Whether every one of the results that the host keeps passes its checks.
pub open spec fn results_pass(results: Seq<ResultItem>, max_results: int) -> bool {
    forall|i: int|
        0 <= i < kept_count(results.len() as int, max_results) ==> item_error(#[trigger] results[i])
            is None
}

/// Whether `e` is the refusal of the first kept result that fails its checks.
pub open spec fn is_first_refusal(results: Seq<ResultItem>, max_results: int, e: ResultErrorView) -> bool {
    exists|k: int|
        0 <= k < kept_count(results.len() as int, max_results) && item_error(#[trigger] results[k])
            == Some(e) && forall|j: int| 0 <= j < k ==> item_error(#[trigger] results[j]) is None
}

/// Checks the results of a query: it keeps the first `max_results` of them and checks
/// each in turn; the first refused one refuses them all, otherwise they are handed back.
pub fn map_results(results: Vec<ResultItem>, max_results: u32) -> (r: Result<
    Vec<ResultItem>,
    ResultError,
>)
    ensures
        r is Ok <==> results_pass(results@, max_results as int),
        r matches Ok(v) ==> v@ == results@.take(kept_count(results@.len() as int, max_results as int)),
        r matches Ok(v) ==> v@.len() <= max_results,
        (forall|i: int| 0 <= i < results@.len() ==> item_error(#[trigger] results@[i]) is None)
            ==> r is Ok,
        r matches Ok(v) ==> (results@.len() <= max_results ==> v@ == results@),
        r matches Ok(v) ==> (results@.len() > max_results ==> v@ == results@.take(
            max_results as int,
        )),
        r matches Err(e) ==> is_first_refusal(results@, max_results as int, e@),
{
    let ghost kept = kept_count(results@.len() as int, max_results as int);
    let ghost all = results@;
    let mut items = results;
    if (max_results as usize) < items.len() {
        items.truncate(max_results as usize);
    }
    assert(items@ =~= all.take(kept));
    let ghost taken = items@;
    let mut accepted: Vec<ResultItem> = Vec::new();
    for item in it: items.into_iter()
        invariant
            it.seq() == taken,
            all == results@,
            kept == kept_count(all.len() as int, max_results as int),
            taken == all.take(kept),
            0 <= kept <= all.len(),
            accepted@ == taken.take(it.index() as int),
            forall|j: int| 0 <= j < it.index() ==> item_error(#[trigger] all[j]) is None,
    {
        let ghost k = it.index() as int;
        assert(taken[k] == all[k]);
        assert(item == all[k]);
        match map_result(item) {
            Ok(v) => {
                accepted.push(v);
                assert(accepted@ =~= taken.take(k + 1));
            },
            Err(e) => {
                assert(item_error(all[k]) == Some(e@));
                assert(k < kept);
                return Err(e);
            },
        }
    }
    assert(accepted@ =~= taken);
    Ok(accepted)
}

} // verus!
