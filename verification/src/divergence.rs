//! The documented gaps between the reference and each bridge.
//!
//! Bridges proxy different coding agents than the reference does. What they legitimately answer
//! otherwise is listed here; adding support to a bridge means removing its entry.
use vstd::prelude::*;

use crate::text;
use crate::transcript::TargetId;

verus! {

/// Documented gaps where a target legitimately diverges from the reference.
#[derive(Debug, Clone)]
pub struct KnownDivergence {
    pub target: TargetId,
    /// Methods that may return an error on this target, and whose response shape is not compared.
    pub skipped_methods: Vec<&'static str>,
    /// Notification kinds whose presence, absence or shape may differ in either direction.
    pub skipped_notifications: Vec<&'static str>,
    /// Per method the key paths that are left out of the fingerprint comparison.
    pub field_path_divergences: Vec<(&'static str, Vec<&'static str>)>,
}

/// What a [`KnownDivergence`] allows.
pub struct Divergence {
    pub skipped_methods: Seq<Seq<char>>,
    pub skipped_notifications: Seq<Seq<char>>,
    pub field_paths: Seq<(Seq<char>, Seq<Seq<char>>)>,
}

impl Divergence {
    /// The key paths that are not compared in frames of `method`.
    pub open spec fn allowed_paths(self, method: Seq<char>) -> Set<Seq<char>> {
        Set::new(
            |path: Seq<char>|
                exists|i: int|
                    0 <= i < self.field_paths.len() && (#[trigger] self.field_paths[i]).0 == method
                        && self.field_paths[i].1.contains(path),
        )
    }
}

/// What a table of key paths per method holds.
pub open spec fn path_views(
    table: Seq<(&'static str, Vec<&'static str>)>,
) -> Seq<(Seq<char>, Seq<Seq<char>>)> {
    table.map_values(|e: (&'static str, Vec<&'static str>)| (e.0@, text::slice_views(e.1@)))
}

impl View for KnownDivergence {
    type V = Divergence;

    open spec fn view(&self) -> Divergence {
        Divergence {
            skipped_methods: text::slice_views(self.skipped_methods@),
            skipped_notifications: text::slice_views(self.skipped_notifications@),
            field_paths: path_views(self.field_path_divergences@),
        }
    }
}

/// Methods whose whole response differs between the reference and every bridge: another agent's
/// config tree, feature flags or server list.
pub open spec fn shape_divergent_responses() -> Seq<Seq<char>> {
    seq![
        "collaborationMode/list"@,
        "experimentalFeature/list"@,
        "mcpServerStatus/list"@,
        "config/read"@,
        "skills/list"@,
    ]
}

/// Notifications around the reference's own lifecycle, and those whose timing or payload is a
/// choice of the model behind a bridge.
pub open spec fn shape_divergent_notifications() -> Seq<Seq<char>> {
    seq![
        "mcpServer/startupStatus/updated"@,
        "account/rateLimits/updated"@,
        "remoteControl/status/changed"@,
        "thread/goal/cleared"@,
        "thread/tokenUsage/updated"@,
        "item/started"@,
        "item/completed"@,
        "thread/status/changed"@,
        "warning"@,
        "item/commandExecution/outputDelta"@,
        "item/reasoning/textDelta"@,
        "item/reasoning/summaryTextDelta"@,
        "item/reasoning/summaryPartAdded"@,
    ]
}

/// Keys of a command execution item, which a bridge keeps in the turn history and the reference
/// prunes.
pub open spec fn command_item_paths() -> Seq<Seq<char>> {
    seq![
        "thread.turns[].items[].command"@,
        "thread.turns[].items[].cwd"@,
        "thread.turns[].items[].source"@,
        "thread.turns[].items[].status"@,
        "thread.turns[].items[].aggregatedOutput"@,
        "thread.turns[].items[].commandActions"@,
        "thread.turns[].items[].commandActions[]"@,
        "thread.turns[].items[].commandActions[].command"@,
        "thread.turns[].items[].commandActions[].name"@,
        "thread.turns[].items[].commandActions[].path"@,
        "thread.turns[].items[].commandActions[].type"@,
    ]
}

/// Keys of a turn item that only the reference, or only a reasoning model, populates.
pub open spec fn item_detail_paths() -> Seq<Seq<char>> {
    seq![
        "thread.turns[].items[].phase"@,
        "thread.turns[].items[].summary"@,
        "thread.turns[].items[].summary[]"@,
    ]
}

/// Key paths that every bridge may leave out or add, by method.
pub open spec fn common_field_divergences() -> Seq<(Seq<char>, Seq<Seq<char>>)> {
    seq![
        (
            "thread/start"@,
            seq!["thread.name"@, "serviceTier"@] + command_item_paths() + item_detail_paths(),
        ),
        (
            "thread/resume"@,
            seq!["serviceTier"@] + item_detail_paths() + command_item_paths() + seq!["thread.name"@],
        ),
        ("thread/read"@, item_detail_paths() + seq!["thread.name"@] + command_item_paths()),
        ("account/read"@, seq!["account.email"@, "account.planType"@]),
        (
            "model/list"@,
            seq![
                "data[].availabilityNux"@,
                "data[].availabilityNux.message"@,
                "data[].upgrade"@,
                "data[].upgradeInfo"@,
                "data[].upgradeInfo.model"@,
                "data[].upgradeInfo.upgradeCopy"@,
                "data[].upgradeInfo.modelLink"@,
                "data[].upgradeInfo.migrationMarkdown"@,
            ],
        ),
        (
            "thread/list"@,
            seq![
                "data[].name"@,
                "data[].agentNickname"@,
                "data[].agentRole"@,
                "nextCursor"@,
                "backwardsCursor"@,
            ],
        ),
    ]
}

/// Methods that one bridge does not offer, beyond those that diverge everywhere.
pub open spec fn own_methods(target: TargetId) -> Seq<Seq<char>> {
    match target {
        TargetId::Codex => seq![],
        TargetId::Pi => seq!["review/start"@],
        TargetId::Claude => seq![],
        TargetId::Amp => seq!["thread/fork"@, "thread/rollback"@, "review/start"@],
        TargetId::Opencode => seq![
            "account/login/start"@,
            "account/login/cancel"@,
            "account/logout"@,
            "mcpServer/oauth/login"@,
            "skills/config/write"@,
            "configRequirements/read"@,
            "thread/turns/list"@,
            "review/start"@,
        ],
        TargetId::Hermes => seq![
            "account/login/start"@,
            "account/login/cancel"@,
            "account/logout"@,
            "mcpServer/oauth/login"@,
            "skills/config/write"@,
            "thread/fork"@,
            "thread/rollback"@,
            "review/start"@,
        ],
        TargetId::Droid => seq![
            "mcpServer/oauth/login"@,
            "thread/fork"@,
            "thread/archive"@,
            "thread/unarchive"@,
            "thread/rollback"@,
            "review/start"@,
        ],
        TargetId::Acp => seq![
            "thread/rollback"@,
            "thread/archive"@,
            "thread/unarchive"@,
            "review/start"@,
            "command/exec/write"@,
            "command/exec/resize"@,
        ],
    }
}

/// Notifications that differ on one bridge, beyond those that diverge everywhere.
pub open spec fn own_notifications(target: TargetId) -> Seq<Seq<char>> {
    match target {
        TargetId::Codex => seq![],
        TargetId::Pi => seq!["configWarning"@],
        TargetId::Claude => seq![],
        TargetId::Amp => seq![],
        TargetId::Opencode => seq![
            "thread/started"@,
            "thread/closed"@,
            "skills/changed"@,
            "turn/diff/updated"@,
            "turn/plan/updated"@,
            "item/reasoning/textDelta"@,
            "item/reasoning/summaryTextDelta"@,
            "item/reasoning/summaryPartAdded"@,
            "item/mcpToolCall/progress"@,
            "item/dynamicToolCall/argumentsDelta"@,
            "thread/name/updated"@,
            "model/rerouted"@,
            "configWarning"@,
            "deprecationNotice"@,
            "serverRequest/resolved"@,
        ],
        TargetId::Hermes => seq![
            "thread/name/updated"@,
            "turn/diff/updated"@,
            "turn/plan/updated"@,
            "item/mcpToolCall/progress"@,
            "item/dynamicToolCall/argumentsDelta"@,
            "model/rerouted"@,
            "configWarning"@,
            "deprecationNotice"@,
            "serverRequest/resolved"@,
        ],
        TargetId::Droid => seq!["thread/name/updated"@],
        TargetId::Acp => seq![],
    }
}

/// Everything that `target` may do otherwise than the reference: nothing for the reference
/// itself, and for a bridge its own gaps followed by those of every bridge.
pub open spec fn known_divergence(target: TargetId) -> Divergence {
    if target == TargetId::Codex {
        Divergence { skipped_methods: seq![], skipped_notifications: seq![], field_paths: seq![] }
    } else {
        Divergence {
            skipped_methods: own_methods(target) + shape_divergent_responses(),
            skipped_notifications: own_notifications(target) + shape_divergent_notifications(),
            field_paths: common_field_divergences(),
        }
    }
}

/// `a` followed by `b`.
fn concat_static(a: Vec<&'static str>, b: Vec<&'static str>) -> (r: Vec<&'static str>)
    ensures
        text::slice_views(r@) == text::slice_views(a@) + text::slice_views(b@),
{
    let mut out: Vec<&'static str> = a;
    let mut rest: Vec<&'static str> = b;
    out.append(&mut rest);
    assert(text::slice_views(out@) =~= text::slice_views(a@) + text::slice_views(b@));
    out
}

fn response_table() -> (r: Vec<&'static str>)
    ensures
        text::slice_views(r@) == shape_divergent_responses(),
{
    let r: Vec<&'static str> = vec![
        "collaborationMode/list",
        "experimentalFeature/list",
        "mcpServerStatus/list",
        "config/read",
        "skills/list",
    ];
    assert(text::slice_views(r@) =~= shape_divergent_responses());
    r
}

fn notification_table() -> (r: Vec<&'static str>)
    ensures
        text::slice_views(r@) == shape_divergent_notifications(),
{
    let r: Vec<&'static str> = vec![
        "mcpServer/startupStatus/updated",
        "account/rateLimits/updated",
        // Subsystems on the reference's own host, which no bridge has.
        "remoteControl/status/changed",
        "thread/goal/cleared",
        // Bridges report their own token counts, often without a context window.
        "thread/tokenUsage/updated",
        // The reference enriches these payloads.
        "item/started",
        "item/completed",
        // Bridges need not model the idle and active states of a session.
        "thread/status/changed",
        // Startup warnings of the reference's own boot path.
        "warning",
        // Deltas or one final blob: a choice of streaming mechanism.
        "item/commandExecution/outputDelta",
        // Whether a model reasons is its own decision.
        "item/reasoning/textDelta",
        "item/reasoning/summaryTextDelta",
        "item/reasoning/summaryPartAdded",
    ];
    assert(text::slice_views(r@) =~= shape_divergent_notifications());
    r
}

fn command_item_table() -> (r: Vec<&'static str>)
    ensures
        text::slice_views(r@) == command_item_paths(),
{
    let r: Vec<&'static str> = vec![
        "thread.turns[].items[].command",
        "thread.turns[].items[].cwd",
        "thread.turns[].items[].source",
        "thread.turns[].items[].status",
        "thread.turns[].items[].aggregatedOutput",
        "thread.turns[].items[].commandActions",
        "thread.turns[].items[].commandActions[]",
        "thread.turns[].items[].commandActions[].command",
        "thread.turns[].items[].commandActions[].name",
        "thread.turns[].items[].commandActions[].path",
        "thread.turns[].items[].commandActions[].type",
    ];
    assert(text::slice_views(r@) =~= command_item_paths());
    r
}

fn item_detail_table() -> (r: Vec<&'static str>)
    ensures
        text::slice_views(r@) == item_detail_paths(),
{
    let r: Vec<&'static str> = vec![
        "thread.turns[].items[].phase",
        "thread.turns[].items[].summary",
        "thread.turns[].items[].summary[]",
    ];
    assert(text::slice_views(r@) =~= item_detail_paths());
    r
}

fn field_table() -> (r: Vec<(&'static str, Vec<&'static str>)>)
    ensures
        path_views(r@) == common_field_divergences(),
{
    let start_head: Vec<&'static str> = vec![
        // A bridge may title a thread on creation; the reference never does.
        "thread.name",
        // The account tier, which only the reference has.
        "serviceTier",
    ];
    assert(text::slice_views(start_head@) =~= seq!["thread.name"@, "serviceTier"@]);
    let start = concat_static(
        concat_static(start_head, command_item_table()),
        item_detail_table(),
    );

    let tier: Vec<&'static str> = vec!["serviceTier"];
    assert(text::slice_views(tier@) =~= seq!["serviceTier"@]);
    let title: Vec<&'static str> = vec!["thread.name"];
    assert(text::slice_views(title@) =~= seq!["thread.name"@]);
    let resume = concat_static(
        concat_static(concat_static(tier, item_detail_table()), command_item_table()),
        title,
    );

    let title: Vec<&'static str> = vec!["thread.name"];
    assert(text::slice_views(title@) =~= seq!["thread.name"@]);
    let read = concat_static(concat_static(item_detail_table(), title), command_item_table());

    // Bridges answer with an API key account, which carries no identity.
    let account: Vec<&'static str> = vec!["account.email", "account.planType"];
    assert(text::slice_views(account@) =~= seq!["account.email"@, "account.planType"@]);

    // Announcements of new models, and suggestions to move to them.
    let models: Vec<&'static str> = vec![
        "data[].availabilityNux",
        "data[].availabilityNux.message",
        "data[].upgrade",
        "data[].upgradeInfo",
        "data[].upgradeInfo.model",
        "data[].upgradeInfo.upgradeCopy",
        "data[].upgradeInfo.modelLink",
        "data[].upgradeInfo.migrationMarkdown",
    ];
    assert(text::slice_views(models@) =~= common_field_divergences()[4].1);

    // Titles are content; bridges return all threads in one page, without cursors.
    let threads: Vec<&'static str> = vec![
        "data[].name",
        "data[].agentNickname",
        "data[].agentRole",
        "nextCursor",
        "backwardsCursor",
    ];
    assert(text::slice_views(threads@) =~= common_field_divergences()[5].1);

    let r: Vec<(&'static str, Vec<&'static str>)> = vec![
        ("thread/start", start),
        ("thread/resume", resume),
        ("thread/read", read),
        ("account/read", account),
        ("model/list", models),
        ("thread/list", threads),
    ];
    assert(path_views(r@) =~= common_field_divergences());
    r
}

fn own_method_table(target: TargetId) -> (r: Vec<&'static str>)
    ensures
        text::slice_views(r@) == own_methods(target),
{
    let r: Vec<&'static str> = match target {
        TargetId::Codex => Vec::new(),
        TargetId::Pi => vec!["review/start"],
        TargetId::Claude => Vec::new(),
        TargetId::Amp => vec!["thread/fork", "thread/rollback", "review/start"],
        TargetId::Opencode => vec![
            "account/login/start",
            "account/login/cancel",
            "account/logout",
            "mcpServer/oauth/login",
            "skills/config/write",
            "configRequirements/read",
            "thread/turns/list",
            "review/start",
        ],
        TargetId::Hermes => vec![
            "account/login/start",
            "account/login/cancel",
            "account/logout",
            "mcpServer/oauth/login",
            "skills/config/write",
            "thread/fork",
            "thread/rollback",
            "review/start",
        ],
        TargetId::Droid => vec![
            "mcpServer/oauth/login",
            "thread/fork",
            "thread/archive",
            "thread/unarchive",
            "thread/rollback",
            "review/start",
        ],
        // Not part of the protocol that these agents speak.
        TargetId::Acp => vec![
            "thread/rollback",
            "thread/archive",
            "thread/unarchive",
            "review/start",
            "command/exec/write",
            "command/exec/resize",
        ],
    };
    assert(text::slice_views(r@) =~= own_methods(target));
    r
}

fn own_notification_table(target: TargetId) -> (r: Vec<&'static str>)
    ensures
        text::slice_views(r@) == own_notifications(target),
{
    let r: Vec<&'static str> = match target {
        TargetId::Codex => Vec::new(),
        // Advises clients that this bridge proxies no MCP servers.
        TargetId::Pi => vec!["configWarning"],
        TargetId::Claude => Vec::new(),
        TargetId::Amp => Vec::new(),
        TargetId::Opencode => vec![
            "thread/started",
            "thread/closed",
            "skills/changed",
            "turn/diff/updated",
            "turn/plan/updated",
            // Fire only when the model behind the bridge reasons.
            "item/reasoning/textDelta",
            "item/reasoning/summaryTextDelta",
            "item/reasoning/summaryPartAdded",
            "item/mcpToolCall/progress",
            "item/dynamicToolCall/argumentsDelta",
            // Titles are generated during the first turn.
            "thread/name/updated",
            "model/rerouted",
            "configWarning",
            "deprecationNotice",
            "serverRequest/resolved",
        ],
        TargetId::Hermes => vec![
            "thread/name/updated",
            "turn/diff/updated",
            "turn/plan/updated",
            "item/mcpToolCall/progress",
            "item/dynamicToolCall/argumentsDelta",
            "model/rerouted",
            "configWarning",
            "deprecationNotice",
            "serverRequest/resolved",
        ],
        TargetId::Droid => vec!["thread/name/updated"],
        TargetId::Acp => Vec::new(),
    };
    assert(text::slice_views(r@) =~= own_notifications(target));
    r
}

impl KnownDivergence {
    /// The documented gaps of `target`.
    pub fn for_target(target: TargetId) -> (r: KnownDivergence)
        ensures
            r.target == target,
            r@ == known_divergence(target),
    {
        match target {
            TargetId::Codex => {
                let r = KnownDivergence {
                    target,
                    skipped_methods: Vec::new(),
                    skipped_notifications: Vec::new(),
                    field_path_divergences: Vec::new(),
                };
                assert(r@.skipped_methods =~= seq![]);
                assert(r@.skipped_notifications =~= seq![]);
                assert(r@.field_paths =~= seq![]);
                r
            },
            _ => KnownDivergence {
                target,
                skipped_methods: concat_static(own_method_table(target), response_table()),
                skipped_notifications: concat_static(
                    own_notification_table(target),
                    notification_table(),
                ),
                field_path_divergences: field_table(),
            },
        }
    }
}

} // verus!
