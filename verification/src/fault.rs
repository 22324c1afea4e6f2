//! What a command refuses, and the words in which it says so.
use vstd::prelude::*;
use crate::text::{cat2, cat3};

verus! {

/// How the command line is used.
pub const USAGE: &'static str = "Herdr Coordinator 的注册表、可信状态协议与注意力队列。

用法:
  fleet init
  fleet register <项目> --tab <tab_id> --commander <机长名> --cwd <路径>
  fleet set-status <项目> <状态> [备注]
  fleet unregister <项目>
  fleet list
  fleet route <项目> <给机长的指令>
  fleet sync
  fleet report <项目> <状态> <一行摘要> [--confidence <0..1>] [--evidence <类型:内容>]...
  fleet claims [项目] [--all] [--json]
  fleet verify <项目> [--claim <claim_id>] [--label <标签>] -- <命令> [参数...]
  fleet accept <项目> [--claim <claim_id>] [--note <说明>] [--force]
  fleet ask <项目> <问题> [--option <选项>]...
  fleet decisions [--all]
  fleet resolve <决策编号> <答案>
  fleet attention [--json]
  fleet inbox [--all]
  fleet plugin-reconcile | plugin-event
  fleet watch | watch-start | watch-status | watch-stop
  fleet tower | open

状态: working|idle|done|blocked|need_decision
";

/// Why something was refused.
#[derive(Debug, Clone, Copy, PartialEq, Eq, Structural)]
pub enum FaultKind {
    Usage,
    UnknownStatus,
    StatusNeedsQuestion,
    Unregistered,
    NotAnObject,
    EmptyEvidence,
    ConfidenceNoNumber,
    ConfidenceRange,
    MissingValue,
    EmptySummary,
    NothingToVerify,
    BadTimeout,
    ClaimVanished,
    BadEvidence,
    ForceNeedsNote,
    NothingToAccept,
    NotDone,
    NotVerified,
    MissingOption,
    EmptyQuestion,
    EmptyAnswer,
    UnknownDecision,
    AlreadyResolved,
    EmptyInstruction,
    NoCommander,
    BadSnapshot,
    NoSnapshot,
    BadEvent,
    UnknownDelivery,
    NotLeased,
    AlreadyAcknowledged,
    NoTarget,
    DeliveryLost,
    BadDelivery,
    PromptFailed,
    PluginWatch,
    AlreadyWatching,
    StartFailed,
    StopFailed,
    SocketClosed,
    Reload,
    TopologyChanged,
    NoSessionSnapshot,
    Foreign,
}

/// A refusal: why, and about what.
#[derive(Debug)]
pub struct Fault {
    pub kind: FaultKind,
    pub subject: String,
}

/// The model of a refusal.
pub struct FaultV {
    pub kind: FaultKind,
    pub subject: Seq<char>,
}

/// A refusal about nothing in particular.
pub open spec fn plain(kind: FaultKind) -> FaultV {
    FaultV { kind, subject: Seq::empty() }
}

/// A refusal about `subject`.
pub open spec fn about(kind: FaultKind, subject: Seq<char>) -> FaultV {
    FaultV { kind, subject }
}

/// The words of a refusal.
pub open spec fn fault_message(fault: FaultV) -> Seq<char> {
    let s = fault.subject;
    match fault.kind {
        FaultKind::Usage => USAGE@,
        FaultKind::UnknownStatus => "状态必须是: working/idle/done/blocked/need_decision"@,
        FaultKind::StatusNeedsQuestion => "need_decision 必须提供需要拍板的问题"@,
        FaultKind::Unregistered => "未注册的项目: "@ + s + "（先 fleet register）"@,
        FaultKind::NotAnObject => "状态文件不是 JSON object"@,
        FaultKind::EmptyEvidence => "--evidence 不能为空"@,
        FaultKind::ConfidenceNoNumber => "--confidence 必须是 0 到 1 的数字"@,
        FaultKind::ConfidenceRange => "--confidence 必须在 0 到 1 之间"@,
        FaultKind::MissingValue => s + " 后缺少参数"@,
        FaultKind::EmptySummary => "必须提供一行摘要"@,
        FaultKind::NothingToVerify => "项目 "@ + s + " 没有可验证的 claim"@,
        FaultKind::BadTimeout => "HERDR_VERIFY_TIMEOUT 必须是秒数"@,
        FaultKind::ClaimVanished => "claim 在验证期间被删除: "@ + s,
        FaultKind::BadEvidence => "claim evidence 格式无效"@,
        FaultKind::ForceNeedsNote => "--force 必须同时提供 --note，记录接受未验证风险的原因"@,
        FaultKind::NothingToAccept => "项目 "@ + s + " 没有可验收的 claim"@,
        FaultKind::NotDone => "只有 done claim 可以验收"@,
        FaultKind::NotVerified =>
            "claim 尚未通过机器验证；先运行 fleet verify，或由用户明确授权 --force"@,
        FaultKind::MissingOption => "--option 后必须提供内容"@,
        FaultKind::EmptyQuestion => "必须提供需要拍板的问题"@,
        FaultKind::EmptyAnswer => "必须提供用户的拍板答案"@,
        FaultKind::UnknownDecision => "找不到决策: "@ + s,
        FaultKind::AlreadyResolved => "决策已经解决: "@ + s,
        FaultKind::EmptyInstruction => "必须提供要转发给机长的指令"@,
        FaultKind::NoCommander => "项目 "@ + s + " 没有登记机长"@,
        FaultKind::BadSnapshot => "无法解析 Herdr 快照"@,
        FaultKind::NoSnapshot => "Herdr 未返回有效 snapshot"@,
        FaultKind::BadEvent => "HERDR_PLUGIN_EVENT_JSON 无效"@,
        FaultKind::UnknownDelivery => "未知投递: "@ + s,
        FaultKind::NotLeased => "投递 "@ + s + " 尚未被管制员领取"@,
        FaultKind::AlreadyAcknowledged => "已确认的投递不能重新释放"@,
        FaultKind::NoTarget => "管制员没有可用的 Herdr target"@,
        FaultKind::DeliveryLost => "投递记录丢失: "@ + s,
        FaultKind::BadDelivery => "投递记录格式无效"@,
        FaultKind::PromptFailed => "无法唤醒管制员 "@ + s,
        FaultKind::PluginWatch =>
            "Plugin 模式由 Herdr startup/event hooks 维护实时状态，无需 fleet watch"@,
        FaultKind::AlreadyWatching => "事件监听器已在运行（pid "@ + s + "）"@,
        FaultKind::StartFailed => "事件监听器启动失败；查看 "@ + s,
        FaultKind::StopFailed => "事件监听器没有及时停止"@,
        FaultKind::SocketClosed => "Herdr socket 已关闭"@,
        FaultKind::Reload => "reload"@,
        FaultKind::TopologyChanged => "topology changed"@,
        FaultKind::NoSessionSnapshot => "Herdr 未返回 session snapshot"@,
        FaultKind::Foreign => s,
    }
}

/// A refusal that another error caused: its subject is the words of the cause.
pub open spec fn has_cause(kind: FaultKind) -> bool {
    kind == FaultKind::ConfidenceNoNumber || kind == FaultKind::BadSnapshot || kind
        == FaultKind::BadEvent || kind == FaultKind::BadTimeout
}

/// The words of a refusal, followed by those of its cause.
pub open spec fn fault_report(fault: FaultV) -> Seq<char> {
    if has_cause(fault.kind) {
        fault_message(fault) + ": "@ + fault.subject
    } else {
        fault_message(fault)
    }
}

impl Fault {
    pub open spec fn view(&self) -> FaultV {
        FaultV { kind: self.kind, subject: self.subject@ }
    }

    pub fn plain(kind: FaultKind) -> (r: Fault)
        ensures
            r@ == plain(kind),
    {
        Fault { kind, subject: String::new() }
    }

    pub fn about(kind: FaultKind, subject: &str) -> (r: Fault)
        ensures
            r@ == about(kind, subject@),
    {
        Fault { kind, subject: subject.to_owned() }
    }

    /// The words of the refusal.
    pub fn message(&self) -> (r: String)
        ensures
            r@ == fault_message(self@),
    {
        let s = self.subject.as_str();
        match self.kind {
            FaultKind::Usage => USAGE.to_owned(),
            FaultKind::UnknownStatus => "状态必须是: working/idle/done/blocked/need_decision".to_owned(),
            FaultKind::StatusNeedsQuestion => "need_decision 必须提供需要拍板的问题".to_owned(),
            FaultKind::Unregistered => cat3("未注册的项目: ", s, "（先 fleet register）"),
            FaultKind::NotAnObject => "状态文件不是 JSON object".to_owned(),
            FaultKind::EmptyEvidence => "--evidence 不能为空".to_owned(),
            FaultKind::ConfidenceNoNumber => "--confidence 必须是 0 到 1 的数字".to_owned(),
            FaultKind::ConfidenceRange => "--confidence 必须在 0 到 1 之间".to_owned(),
            FaultKind::MissingValue => cat2(s, " 后缺少参数"),
            FaultKind::EmptySummary => "必须提供一行摘要".to_owned(),
            FaultKind::NothingToVerify => cat3("项目 ", s, " 没有可验证的 claim"),
            FaultKind::BadTimeout => "HERDR_VERIFY_TIMEOUT 必须是秒数".to_owned(),
            FaultKind::ClaimVanished => cat2("claim 在验证期间被删除: ", s),
            FaultKind::BadEvidence => "claim evidence 格式无效".to_owned(),
            FaultKind::ForceNeedsNote =>
                "--force 必须同时提供 --note，记录接受未验证风险的原因".to_owned(),
            FaultKind::NothingToAccept => cat3("项目 ", s, " 没有可验收的 claim"),
            FaultKind::NotDone => "只有 done claim 可以验收".to_owned(),
            FaultKind::NotVerified =>
                "claim 尚未通过机器验证；先运行 fleet verify，或由用户明确授权 --force".to_owned(),
            FaultKind::MissingOption => "--option 后必须提供内容".to_owned(),
            FaultKind::EmptyQuestion => "必须提供需要拍板的问题".to_owned(),
            FaultKind::EmptyAnswer => "必须提供用户的拍板答案".to_owned(),
            FaultKind::UnknownDecision => cat2("找不到决策: ", s),
            FaultKind::AlreadyResolved => cat2("决策已经解决: ", s),
            FaultKind::EmptyInstruction => "必须提供要转发给机长的指令".to_owned(),
            FaultKind::NoCommander => cat3("项目 ", s, " 没有登记机长"),
            FaultKind::BadSnapshot => "无法解析 Herdr 快照".to_owned(),
            FaultKind::NoSnapshot => "Herdr 未返回有效 snapshot".to_owned(),
            FaultKind::BadEvent => "HERDR_PLUGIN_EVENT_JSON 无效".to_owned(),
            FaultKind::UnknownDelivery => cat2("未知投递: ", s),
            FaultKind::NotLeased => cat3("投递 ", s, " 尚未被管制员领取"),
            FaultKind::AlreadyAcknowledged => "已确认的投递不能重新释放".to_owned(),
            FaultKind::NoTarget => "管制员没有可用的 Herdr target".to_owned(),
            FaultKind::DeliveryLost => cat2("投递记录丢失: ", s),
            FaultKind::BadDelivery => "投递记录格式无效".to_owned(),
            FaultKind::PromptFailed => cat2("无法唤醒管制员 ", s),
            FaultKind::PluginWatch =>
                "Plugin 模式由 Herdr startup/event hooks 维护实时状态，无需 fleet watch".to_owned(),
            FaultKind::AlreadyWatching => cat3("事件监听器已在运行（pid ", s, "）"),
            FaultKind::StartFailed => cat2("事件监听器启动失败；查看 ", s),
            FaultKind::StopFailed => "事件监听器没有及时停止".to_owned(),
            FaultKind::SocketClosed => "Herdr socket 已关闭".to_owned(),
            FaultKind::Reload => "reload".to_owned(),
            FaultKind::TopologyChanged => "topology changed".to_owned(),
            FaultKind::NoSessionSnapshot => "Herdr 未返回 session snapshot".to_owned(),
            FaultKind::Foreign => s.to_owned(),
        }
    }

    /// The words of the refusal, followed by those of its cause.
    pub fn report(&self) -> (r: String)
        ensures
            r@ == fault_report(self@),
    {
        match self.kind {
            FaultKind::ConfidenceNoNumber | FaultKind::BadSnapshot | FaultKind::BadEvent
            | FaultKind::BadTimeout => cat3(
                self.message().as_str(),
                ": ",
                self.subject.as_str(),
            ),
            _ => self.message(),
        }
    }
}

} // verus!
