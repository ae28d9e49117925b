//! Pure parsing of process launch requests.
use vstd::prelude::*;
use crate::error::opt_view;
use crate::text::{ascii_lower, eq_ignore_ascii_case, has_prefix, str_eq_ignore_ascii_case, starts_with};

verus! {

/// Longest accepted navigation path, in Unicode scalar values.
pub const MAX_NAVIGATION_SCALARS: usize = 256;
/// Most launch notices kept for one launch.
pub const MAX_NOTICES: usize = 8;

/// A validated request that later shell layers can consume.
#[derive(Debug, PartialEq, Eq)]
pub struct LaunchRequest {
    /// Whether the initial window should be created hidden.
    pub start_hidden: bool,
    /// A syntax-validated internal path.
    pub navigation_path: Option<String>,
}

/// Stable launch diagnostic identifiers.
#[derive(Clone, Copy, Debug, PartialEq, Eq, Structural)]
pub enum LaunchNoticeCode {
    NonUnicodeArgument,
    UnknownArgument,
    DuplicateTray,
    DuplicateNavigate,
    MissingNavigatePath,
    InvalidNavigatePath,
}

/// A bounded launch warning that never contains raw argument text.
#[derive(Debug, PartialEq, Eq)]
pub struct LaunchNotice {
    pub code: LaunchNoticeCode,
    pub summary: String,
    pub detail: Option<String>,
    /// One-based position after the executable path, when it fits in `u16`.
    pub argument_position: Option<u16>,
}

/// Result of parsing one launch vector.
#[derive(Debug, PartialEq, Eq)]
pub struct ParsedLaunch {
    /// Safe request: any notice resets it to a normal visible launch.
    pub request: LaunchRequest,
    pub notices: Vec<LaunchNotice>,
}

/// Mathematical form of a launch request.
pub struct RequestModel {
    pub start_hidden: bool,
    pub navigation_path: Option<Seq<char>>,
}

/// Mathematical form of a launch notice.
pub struct NoticeModel {
    pub code: LaunchNoticeCode,
    pub summary: Seq<char>,
    pub detail: Option<Seq<char>>,
    pub argument_position: Option<u16>,
}

impl View for LaunchRequest {
    type V = RequestModel;

    open spec fn view(&self) -> RequestModel {
        RequestModel { start_hidden: self.start_hidden, navigation_path: opt_view(self.navigation_path) }
    }
}

impl Clone for LaunchRequest {
    fn clone(&self) -> (copy: Self)
        ensures
            copy@ == self@,
    {
        LaunchRequest { start_hidden: self.start_hidden, navigation_path: self.navigation_path.clone() }
    }
}

impl Default for LaunchRequest {
    fn default() -> (request: Self)
        ensures
            request@ == default_request(),
    {
        LaunchRequest::normal()
    }
}

impl LaunchRequest {
    /// A normal visible launch without navigation.
    pub fn normal() -> (request: Self)
        ensures
            request@ == default_request(),
    {
        LaunchRequest { start_hidden: false, navigation_path: None }
    }
}

impl View for LaunchNotice {
    type V = NoticeModel;

    open spec fn view(&self) -> NoticeModel {
        NoticeModel {
            code: self.code,
            summary: self.summary@,
            detail: opt_view(self.detail),
            argument_position: self.argument_position,
        }
    }
}

impl Clone for LaunchNotice {
    fn clone(&self) -> (copy: Self)
        ensures
            copy@ == self@,
    {
        LaunchNotice {
            code: self.code,
            summary: self.summary.clone(),
            detail: self.detail.clone(),
            argument_position: self.argument_position,
        }
    }
}

/// Models of a sequence of notices.
pub open spec fn notice_models(notices: Seq<LaunchNotice>) -> Seq<NoticeModel> {
    notices.map_values(|n: LaunchNotice| n@)
}

/// Copies a list of notices.
pub fn clone_notices(notices: &Vec<LaunchNotice>) -> (copy: Vec<LaunchNotice>)
    ensures
        notice_models(copy@) == notice_models(notices@),
{
    let copy = notices.clone();
    assert(notice_models(copy@) =~= notice_models(notices@));
    copy
}

pub open spec fn default_request() -> RequestModel {
    RequestModel { start_hidden: false, navigation_path: None }
}

/// Why a navigation path is refused, checked in this order.
#[derive(Clone, Copy, Debug, PartialEq, Eq, Structural)]
pub enum NavigationPathProblem {
    NotRooted,
    TooLong,
    ControlCharacter,
    QueryFragmentOrBackslash,
    DotOrEmptySegment,
}

/// `char::is_control`: the general category Cc.
pub open spec fn is_control(c: char) -> bool {
    (c as u32) <= 0x1f || (0x7f <= (c as u32) && (c as u32) <= 0x9f)
}

/// Exec form of [`is_control`].
pub fn char_is_control(c: char) -> (r: bool)
    ensures
        r == is_control(c),
{
    let code = c as u32;
    code <= 0x1f || (0x7f <= code && code <= 0x9f)
}

/// A segment after the slash at `i` is empty, `.` or `..`.
pub open spec fn bad_segment_at(p: Seq<char>, i: int) -> bool {
    &&& 0 <= i < p.len()
    &&& p[i] == '/'
    &&& {
        ||| i + 1 == p.len()
        ||| p[i + 1] == '/'
        ||| (p[i + 1] == '.' && (i + 2 == p.len() || p[i + 2] == '/'))
        ||| (p[i + 1] == '.' && i + 2 < p.len() && p[i + 2] == '.' && (i + 3 == p.len() || p[i + 3] == '/'))
    }
}

/// The first problem of a navigation path, if any.
pub open spec fn navigation_problem(p: Seq<char>) -> Option<NavigationPathProblem> {
    if !(p.len() > 0 && p[0] == '/') {
        Some(NavigationPathProblem::NotRooted)
    } else if p.len() > MAX_NAVIGATION_SCALARS {
        Some(NavigationPathProblem::TooLong)
    } else if exists|i: int| 0 <= i < p.len() && is_control(#[trigger] p[i]) {
        Some(NavigationPathProblem::ControlCharacter)
    } else if exists|i: int| 0 <= i < p.len() && (#[trigger] p[i] == '\\' || p[i] == '?' || p[i] == '#') {
        Some(NavigationPathProblem::QueryFragmentOrBackslash)
    } else if p != seq!['/'] && exists|i: int| #[trigger] bad_segment_at(p, i) {
        Some(NavigationPathProblem::DotOrEmptySegment)
    } else {
        None
    }
}

/// The visible reason of a navigation problem.
pub open spec fn problem_reason(problem: NavigationPathProblem) -> Seq<char> {
    match problem {
        NavigationPathProblem::NotRooted => "内部路径必须以 / 开头。"@,
        NavigationPathProblem::TooLong => "内部路径超过 256 个字符。"@,
        NavigationPathProblem::ControlCharacter => "内部路径不能包含控制字符。"@,
        NavigationPathProblem::QueryFragmentOrBackslash => "内部路径不能包含查询、片段或反斜杠。"@,
        NavigationPathProblem::DotOrEmptySegment => "内部路径不能包含空段、当前目录段或父目录段。"@,
    }
}

impl NavigationPathProblem {
    /// The visible reason text.
    pub fn reason(self) -> (text: &'static str)
        ensures
            text@ == problem_reason(self),
    {
        match self {
            NavigationPathProblem::NotRooted => "内部路径必须以 / 开头。",
            NavigationPathProblem::TooLong => "内部路径超过 256 个字符。",
            NavigationPathProblem::ControlCharacter => "内部路径不能包含控制字符。",
            NavigationPathProblem::QueryFragmentOrBackslash => "内部路径不能包含查询、片段或反斜杠。",
            NavigationPathProblem::DotOrEmptySegment => "内部路径不能包含空段、当前目录段或父目录段。",
        }
    }
}

/// Checks the transport envelope of an internal navigation path.
pub fn validate_navigation_path(path: &str) -> (result: Result<(), NavigationPathProblem>)
    ensures
        match navigation_problem(path@) {
            None => result is Ok,
            Some(problem) => result == Err::<(), NavigationPathProblem>(problem),
        },
{
    let n = path.unicode_len();
    if n == 0 || path.get_char(0) != '/' {
        return Err(NavigationPathProblem::NotRooted);
    }
    if n > MAX_NAVIGATION_SCALARS {
        return Err(NavigationPathProblem::TooLong);
    }
    let mut i: usize = 0;
    while i < n
        invariant
            n == path@.len(),
            0 < n <= MAX_NAVIGATION_SCALARS,
            path@[0] == '/',
            i <= n,
            forall|j: int| 0 <= j < i ==> !is_control(#[trigger] path@[j]),
        decreases n - i,
    {
        let c = path.get_char(i);
        if char_is_control(c) {
            assert(is_control(path@[i as int]));
            return Err(NavigationPathProblem::ControlCharacter);
        }
        i += 1;
    }
    let mut i: usize = 0;
    while i < n
        invariant
            n == path@.len(),
            0 < n <= MAX_NAVIGATION_SCALARS,
            path@[0] == '/',
            forall|j: int| 0 <= j < n ==> !is_control(#[trigger] path@[j]),
            i <= n,
            forall|j: int| 0 <= j < i ==> !(#[trigger] path@[j] == '\\' || path@[j] == '?' || path@[j] == '#'),
        decreases n - i,
    {
        let c = path.get_char(i);
        if c == '\\' || c == '?' || c == '#' {
            assert(path@[i as int] == '\\' || path@[i as int] == '?' || path@[i as int] == '#');
            return Err(NavigationPathProblem::QueryFragmentOrBackslash);
        }
        i += 1;
    }
    if n == 1 {
        assert(path@ =~= seq!['/']);
        return Ok(());
    }
    let mut i: usize = 0;
    while i < n
        invariant
            n == path@.len(),
            1 < n <= MAX_NAVIGATION_SCALARS,
            path@[0] == '/',
            forall|j: int| 0 <= j < n ==> !is_control(#[trigger] path@[j]),
            forall|j: int| 0 <= j < n ==> !(#[trigger] path@[j] == '\\' || path@[j] == '?' || path@[j] == '#'),
            i <= n,
            forall|j: int| 0 <= j < i ==> !bad_segment_at(path@, j),
        decreases n - i,
    {
        if path.get_char(i) == '/' {
            let bad = if i + 1 == n {
                true
            } else {
                let c1 = path.get_char(i + 1);
                if c1 == '/' {
                    true
                } else if c1 == '.' {
                    if i + 2 == n {
                        true
                    } else {
                        let c2 = path.get_char(i + 2);
                        if c2 == '/' {
                            true
                        } else if c2 == '.' {
                            i + 3 == n || path.get_char(i + 3) == '/'
                        } else {
                            false
                        }
                    }
                } else {
                    false
                }
            };
            if bad {
                assert(bad_segment_at(path@, i as int));
                assert(path@.len() != seq!['/'].len());
                return Err(NavigationPathProblem::DotOrEmptySegment);
            }
        }
        i += 1;
    }
    Ok(())
}

/// The notice for one finding.
pub open spec fn notice(
    code: LaunchNoticeCode,
    summary: Seq<char>,
    detail: Seq<char>,
    position: Option<u16>,
) -> NoticeModel {
    NoticeModel { code, summary, detail: Some(detail), argument_position: position }
}

/// Appends a notice unless [`MAX_NOTICES`] are already held.
pub open spec fn push_bounded(notices: Seq<NoticeModel>, n: NoticeModel) -> Seq<NoticeModel> {
    if notices.len() < MAX_NOTICES {
        notices.push(n)
    } else {
        notices
    }
}

/// One-based argument position, when it fits in `u16`.
pub open spec fn position_of(index: int) -> Option<u16> {
    if index + 1 <= u16::MAX {
        Some((index + 1) as u16)
    } else {
        None
    }
}

/// `/tray`, compared ignoring ASCII case.
pub open spec fn is_tray(a: Seq<char>) -> bool {
    eq_ignore_ascii_case(a, "/tray"@)
}

/// A switch: starts with `--`, or is `/tray` in any ASCII case.
pub open spec fn is_switch(a: Option<Seq<char>>) -> bool {
    match a {
        Some(text) => has_prefix(text, "--"@) || is_tray(text),
        None => false,
    }
}

/// State of the left-to-right scan of the arguments.
pub struct ScanState {
    pub request: RequestModel,
    pub notices: Seq<NoticeModel>,
    pub tray_seen: bool,
    pub navigate_seen: bool,
}

pub open spec fn summary_unknown_text() -> Seq<char> { "启动参数包含无法识别的文本，已按普通方式启动。"@ }
pub open spec fn detail_unknown_text() -> Seq<char> { "参数不是有效的 Unicode 文本。"@ }
pub open spec fn summary_duplicate_tray() -> Seq<char> { "后台启动参数重复，已按普通方式启动。"@ }
pub open spec fn detail_duplicate_tray() -> Seq<char> { "同一启动请求只能包含一次 /tray。"@ }
pub open spec fn summary_duplicate_navigate() -> Seq<char> { "导航参数重复，已按普通方式启动。"@ }
pub open spec fn detail_duplicate_navigate() -> Seq<char> { "同一启动请求只能包含一次 --navigate。"@ }
pub open spec fn summary_missing_path() -> Seq<char> { "导航参数缺少目标，已按普通方式启动。"@ }
pub open spec fn detail_missing_path() -> Seq<char> { "--navigate 后必须提供一个内部路径。"@ }
pub open spec fn summary_invalid_path() -> Seq<char> { "导航目标无效，已按普通方式启动。"@ }
pub open spec fn summary_unknown_target() -> Seq<char> { "导航目标包含无法识别的文本，已按普通方式启动。"@ }
pub open spec fn detail_unknown_target() -> Seq<char> { "导航目标不是有效的 Unicode 文本。"@ }
pub open spec fn summary_unsupported() -> Seq<char> { "存在不支持的启动参数，已按普通方式启动。"@ }
pub open spec fn detail_unsupported() -> Seq<char> { "参数类型不受支持。"@ }

/// The scan state after the arguments from `index` on: each step consumes the
/// argument at `index` and, for `--navigate`, possibly its value.
pub open spec fn scan(args: Seq<Option<Seq<char>>>, index: int, st: ScanState) -> ScanState
    decreases args.len() - index,
{
    if index < 0 || index >= args.len() {
        st
    } else {
        let position = position_of(index);
        match args[index] {
            None => scan(
                args,
                index + 1,
                ScanState {
                    notices: push_bounded(st.notices, notice(LaunchNoticeCode::NonUnicodeArgument, summary_unknown_text(), detail_unknown_text(), position)),
                    ..st
                },
            ),
            Some(argument) => if is_tray(argument) {
                if st.tray_seen {
                    scan(
                        args,
                        index + 1,
                        ScanState {
                            notices: push_bounded(st.notices, notice(LaunchNoticeCode::DuplicateTray, summary_duplicate_tray(), detail_duplicate_tray(), position)),
                            ..st
                        },
                    )
                } else {
                    scan(
                        args,
                        index + 1,
                        ScanState {
                            tray_seen: true,
                            request: RequestModel { start_hidden: true, ..st.request },
                            ..st
                        },
                    )
                }
            } else if argument == "--navigate"@ {
                if st.navigate_seen {
                    let next = if index + 1 < args.len() && !is_switch(args[index + 1]) { index + 2 } else { index + 1 };
                    scan(
                        args,
                        next,
                        ScanState {
                            notices: push_bounded(st.notices, notice(LaunchNoticeCode::DuplicateNavigate, summary_duplicate_navigate(), detail_duplicate_navigate(), position)),
                            ..st
                        },
                    )
                } else if index + 1 >= args.len() || is_switch(args[index + 1]) {
                    scan(
                        args,
                        index + 1,
                        ScanState {
                            navigate_seen: true,
                            notices: push_bounded(st.notices, notice(LaunchNoticeCode::MissingNavigatePath, summary_missing_path(), detail_missing_path(), position)),
                            ..st
                        },
                    )
                } else {
                    let target_position = position_of(index + 1);
                    let st2 = match args[index + 1] {
                        Some(path) => match navigation_problem(path) {
                            None => ScanState {
                                navigate_seen: true,
                                request: RequestModel { navigation_path: Some(path), ..st.request },
                                ..st
                            },
                            Some(problem) => ScanState {
                                navigate_seen: true,
                                notices: push_bounded(st.notices, notice(LaunchNoticeCode::InvalidNavigatePath, summary_invalid_path(), problem_reason(problem), target_position)),
                                ..st
                            },
                        },
                        None => ScanState {
                            navigate_seen: true,
                            notices: push_bounded(st.notices, notice(LaunchNoticeCode::NonUnicodeArgument, summary_unknown_target(), detail_unknown_target(), target_position)),
                            ..st
                        },
                    };
                    scan(args, index + 2, st2)
                }
            } else {
                scan(
                    args,
                    index + 1,
                    ScanState {
                        notices: push_bounded(st.notices, notice(LaunchNoticeCode::UnknownArgument, summary_unsupported(), detail_unsupported(), position)),
                        ..st
                    },
                )
            },
        }
    }
}

pub open spec fn initial_scan() -> ScanState {
    ScanState { request: default_request(), notices: Seq::empty(), tray_seen: false, navigate_seen: false }
}

/// The request and notices that a launch vector yields: any notice resets
/// the request to a normal visible launch.
pub open spec fn parse_model(args: Seq<Option<Seq<char>>>) -> (RequestModel, Seq<NoticeModel>) {
    let end = scan(args, 0, initial_scan());
    if end.notices.len() == 0 {
        (end.request, end.notices)
    } else {
        (default_request(), end.notices)
    }
}

/// Views of the arguments.
pub open spec fn argument_models(arguments: Seq<Option<String>>) -> Seq<Option<Seq<char>>> {
    arguments.map_values(|a: Option<String>| opt_view(a))
}

/// Every notice bound and every accepted path hold along the scan.
pub open spec fn scan_invariant(st: ScanState) -> bool {
    &&& st.notices.len() <= MAX_NOTICES
    &&& match st.request.navigation_path {
        Some(p) => navigation_problem(p) is None,
        None => true,
    }
}

proof fn lemma_scan_keeps_invariant(args: Seq<Option<Seq<char>>>, index: int, st: ScanState)
    requires
        scan_invariant(st),
    ensures
        scan_invariant(scan(args, index, st)),
    decreases args.len() - index,
{
    if index < 0 || index >= args.len() {
    } else {
        match args[index] {
            None => {
                lemma_scan_keeps_invariant(args, index + 1, ScanState {
                    notices: push_bounded(st.notices, notice(LaunchNoticeCode::NonUnicodeArgument, summary_unknown_text(), detail_unknown_text(), position_of(index))),
                    ..st
                });
            },
            Some(argument) => {
                if is_tray(argument) {
                    if st.tray_seen {
                        lemma_scan_keeps_invariant(args, index + 1, ScanState {
                            notices: push_bounded(st.notices, notice(LaunchNoticeCode::DuplicateTray, summary_duplicate_tray(), detail_duplicate_tray(), position_of(index))),
                            ..st
                        });
                    } else {
                        lemma_scan_keeps_invariant(args, index + 1, ScanState {
                            tray_seen: true,
                            request: RequestModel { start_hidden: true, ..st.request },
                            ..st
                        });
                    }
                } else if argument == "--navigate"@ {
                    if st.navigate_seen {
                        let next = if index + 1 < args.len() && !is_switch(args[index + 1]) { index + 2 } else { index + 1 };
                        lemma_scan_keeps_invariant(args, next, ScanState {
                            notices: push_bounded(st.notices, notice(LaunchNoticeCode::DuplicateNavigate, summary_duplicate_navigate(), detail_duplicate_navigate(), position_of(index))),
                            ..st
                        });
                    } else if index + 1 >= args.len() || is_switch(args[index + 1]) {
                        lemma_scan_keeps_invariant(args, index + 1, ScanState {
                            navigate_seen: true,
                            notices: push_bounded(st.notices, notice(LaunchNoticeCode::MissingNavigatePath, summary_missing_path(), detail_missing_path(), position_of(index))),
                            ..st
                        });
                    } else {
                        let target_position = position_of(index + 1);
                        let st2 = match args[index + 1] {
                            Some(path) => match navigation_problem(path) {
                                None => ScanState {
                                    navigate_seen: true,
                                    request: RequestModel { navigation_path: Some(path), ..st.request },
                                    ..st
                                },
                                Some(problem) => ScanState {
                                    navigate_seen: true,
                                    notices: push_bounded(st.notices, notice(LaunchNoticeCode::InvalidNavigatePath, summary_invalid_path(), problem_reason(problem), target_position)),
                                    ..st
                                },
                            },
                            None => ScanState {
                                navigate_seen: true,
                                notices: push_bounded(st.notices, notice(LaunchNoticeCode::NonUnicodeArgument, summary_unknown_target(), detail_unknown_target(), target_position)),
                                ..st
                            },
                        };
                        lemma_scan_keeps_invariant(args, index + 2, st2);
                    }
                } else {
                    lemma_scan_keeps_invariant(args, index + 1, ScanState {
                        notices: push_bounded(st.notices, notice(LaunchNoticeCode::UnknownArgument, summary_unsupported(), detail_unsupported(), position_of(index))),
                        ..st
                    });
                }
            },
        }
    }
}

/// Every launch vector yields at most [`MAX_NOTICES`] notices, any notice
/// resets the request to a normal visible launch, and an accepted navigation
/// path always satisfies the transport envelope.
pub proof fn lemma_parse_is_safe(args: Seq<Option<Seq<char>>>)
    ensures
        parse_model(args).1.len() <= MAX_NOTICES,
        parse_model(args).1.len() > 0 ==> parse_model(args).0 == default_request(),
        match parse_model(args).0.navigation_path {
            Some(p) => navigation_problem(p) is None,
            None => true,
        },
{
    lemma_scan_keeps_invariant(args, 0, initial_scan());
}

fn argument_position(index: usize) -> (position: Option<u16>)
    ensures
        position == position_of(index as int),
{
    if index < 65535 {
        Some((index + 1) as u16)
    } else {
        None
    }
}

fn push_notice(
    notices: &mut Vec<LaunchNotice>,
    code: LaunchNoticeCode,
    summary: &str,
    detail: &str,
    argument_position: Option<u16>,
)
    ensures
        notice_models(final(notices)@) == push_bounded(
            notice_models(old(notices)@),
            notice(code, summary@, detail@, argument_position),
        ),
{
    if notices.len() < MAX_NOTICES {
        notices.push(LaunchNotice {
            code,
            summary: String::from_str(summary),
            detail: Some(String::from_str(detail)),
            argument_position,
        });
        proof {
            assert(notice_models(final(notices)@) =~= notice_models(old(notices)@).push(
                notice(code, summary@, detail@, argument_position),
            ));
        }
    }
}

fn argument_is_switch(argument: &Option<String>) -> (r: bool)
    ensures
        r == is_switch(opt_view(*argument)),
{
    match argument {
        Some(text) => starts_with(text.as_str(), "--") || str_eq_ignore_ascii_case(text.as_str(), "/tray"),
        None => false,
    }
}

fn skip_navigate_value(arguments: &Vec<Option<String>>, index: usize) -> (next: usize)
    requires
        index < arguments.len(),
    ensures
        next == if index + 1 < arguments.len() && !is_switch(opt_view(arguments@[index + 1])) {
            index + 2
        } else {
            index + 1
        },
{
    if index + 1 < arguments.len() && !argument_is_switch(&arguments[index + 1]) {
        index + 2
    } else {
        index + 1
    }
}

/// Parses the arguments that follow the executable path. An argument that is
/// not valid Unicode is `None`.
pub fn parse_launch_args(arguments: Vec<Option<String>>) -> (parsed: ParsedLaunch)
    ensures
        (parsed.request@, notice_models(parsed.notices@)) == parse_model(argument_models(arguments@)),
        parsed.notices@.len() <= MAX_NOTICES,
        parsed.notices@.len() > 0 ==> parsed.request@ == default_request(),
{
    let ghost args = argument_models(arguments@);
    let mut start_hidden = false;
    let mut navigation_path: Option<String> = None;
    let mut notices: Vec<LaunchNotice> = Vec::new();
    let mut tray_seen = false;
    let mut navigate_seen = false;
    let mut index: usize = 0;
    proof {
        reveal_strlit("--navigate");
        reveal_strlit("/tray");
        reveal_strlit("--");
        assert(notice_models(notices@) =~= Seq::<NoticeModel>::empty());
    }
    while index < arguments.len()
        invariant
            args == argument_models(arguments@),
            index <= arguments.len() + 1,
            scan(args, index as int, ScanState {
                request: RequestModel { start_hidden, navigation_path: opt_view(navigation_path) },
                notices: notice_models(notices@),
                tray_seen,
                navigate_seen,
            }) == scan(args, 0, initial_scan()),
        decreases arguments.len() + 1 - index,
    {
        let position = argument_position(index);
        match &arguments[index] {
            None => {
                push_notice(
                    &mut notices,
                    LaunchNoticeCode::NonUnicodeArgument,
                    "启动参数包含无法识别的文本，已按普通方式启动。",
                    "参数不是有效的 Unicode 文本。",
                    position,
                );
                index += 1;
            },
            Some(argument) => {
                if str_eq_ignore_ascii_case(argument.as_str(), "/tray") {
                    if tray_seen {
                        push_notice(
                            &mut notices,
                            LaunchNoticeCode::DuplicateTray,
                            "后台启动参数重复，已按普通方式启动。",
                            "同一启动请求只能包含一次 /tray。",
                            position,
                        );
                    } else {
                        tray_seen = true;
                        start_hidden = true;
                    }
                    index += 1;
                } else if crate::text::str_eq(argument.as_str(), "--navigate") {
                    if navigate_seen {
                        push_notice(
                            &mut notices,
                            LaunchNoticeCode::DuplicateNavigate,
                            "导航参数重复，已按普通方式启动。",
                            "同一启动请求只能包含一次 --navigate。",
                            position,
                        );
                        index = skip_navigate_value(&arguments, index);
                    } else {
                        navigate_seen = true;
                        if index + 1 >= arguments.len() || argument_is_switch(&arguments[index + 1]) {
                            push_notice(
                                &mut notices,
                                LaunchNoticeCode::MissingNavigatePath,
                                "导航参数缺少目标，已按普通方式启动。",
                                "--navigate 后必须提供一个内部路径。",
                                position,
                            );
                            index += 1;
                        } else {
                            let target_position = argument_position(index + 1);
                            match &arguments[index + 1] {
                                Some(path) => match validate_navigation_path(path.as_str()) {
                                    Ok(()) => {
                                        navigation_path = Some(path.clone());
                                    },
                                    Err(problem) => {
                                        push_notice(
                                            &mut notices,
                                            LaunchNoticeCode::InvalidNavigatePath,
                                            "导航目标无效，已按普通方式启动。",
                                            problem.reason(),
                                            target_position,
                                        );
                                    },
                                },
                                None => {
                                    push_notice(
                                        &mut notices,
                                        LaunchNoticeCode::NonUnicodeArgument,
                                        "导航目标包含无法识别的文本，已按普通方式启动。",
                                        "导航目标不是有效的 Unicode 文本。",
                                        target_position,
                                    );
                                },
                            }
                            index += 2;
                        }
                    }
                } else {
                    push_notice(
                        &mut notices,
                        LaunchNoticeCode::UnknownArgument,
                        "存在不支持的启动参数，已按普通方式启动。",
                        "参数类型不受支持。",
                        position,
                    );
                    index += 1;
                }
            },
        }
    }
    proof { lemma_parse_is_safe(args); }
    if notices.len() == 0 {
        ParsedLaunch { request: LaunchRequest { start_hidden, navigation_path }, notices }
    } else {
        ParsedLaunch { request: LaunchRequest::normal(), notices }
    }
}

} // verus!

verus! {

/// What the log keeps of a launch notice: its code and argument position,
/// never its summary, detail or the argument itself.
#[derive(Clone, Copy, Debug, PartialEq, Eq, Structural)]
pub struct LaunchNoticeEvidence {
    pub code: LaunchNoticeCode,
    pub argument_position: Option<u16>,
}

/// The log evidence of each notice, in order.
pub fn launch_notice_evidence(notices: &Vec<LaunchNotice>) -> (evidence: Vec<LaunchNoticeEvidence>)
    ensures
        evidence@.len() == notices@.len(),
        forall|i: int| 0 <= i < notices@.len() ==> #[trigger] evidence@[i] == (LaunchNoticeEvidence {
            code: notices@[i].code,
            argument_position: notices@[i].argument_position,
        }),
{
    let mut evidence: Vec<LaunchNoticeEvidence> = Vec::new();
    let mut i: usize = 0;
    while i < notices.len()
        invariant
            i <= notices@.len(),
            evidence@.len() == i,
            forall|j: int| 0 <= j < i ==> #[trigger] evidence@[j] == (LaunchNoticeEvidence {
                code: notices@[j].code,
                argument_position: notices@[j].argument_position,
            }),
        decreases notices@.len() - i,
    {
        evidence.push(LaunchNoticeEvidence { code: notices[i].code, argument_position: notices[i].argument_position });
        i += 1;
    }
    evidence
}

} // verus!
