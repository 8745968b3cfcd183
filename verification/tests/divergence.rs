use alleycat::divergence::KnownDivergence;
use alleycat::transcript::TargetId;

const EVERYWHERE_METHODS: &[&str] = &[
    "collaborationMode/list",
    "experimentalFeature/list",
    "mcpServerStatus/list",
    "config/read",
    "skills/list",
];

const EVERYWHERE_NOTIFICATIONS: &[&str] = &[
    "mcpServer/startupStatus/updated",
    "account/rateLimits/updated",
    "remoteControl/status/changed",
    "thread/goal/cleared",
    "thread/tokenUsage/updated",
    "item/started",
    "item/completed",
    "thread/status/changed",
    "warning",
    "item/commandExecution/outputDelta",
    "item/reasoning/textDelta",
    "item/reasoning/summaryTextDelta",
    "item/reasoning/summaryPartAdded",
];

const EVERYWHERE_PATHS: &[(&str, &[&str])] = &[
    (
        "thread/start",
        &[
            "thread.name",
            "serviceTier",
            "thread.turns[].items[].command",
            "thread.turns[].items[].cwd",
            "thread.turns[].items[].source",
            "thread.turns[].items[].status",
            "thread.turns[].items[].aggregatedOutput",
            "thread.turns[].items[].commandActions",
            "thread.turns[].items[].commandActions[]",
            "thread.turns[].items[].commandActions[].command",
            "thread.turns[].items[].commandActions[].name",
            "thread.turns[].items[].commandActions[].path",
            "thread.turns[].items[].commandActions[].type",
            "thread.turns[].items[].phase",
            "thread.turns[].items[].summary",
            "thread.turns[].items[].summary[]",
        ],
    ),
    (
        "thread/resume",
        &[
            "serviceTier",
            "thread.turns[].items[].phase",
            "thread.turns[].items[].summary",
            "thread.turns[].items[].summary[]",
            "thread.turns[].items[].command",
            "thread.turns[].items[].cwd",
            "thread.turns[].items[].source",
            "thread.turns[].items[].status",
            "thread.turns[].items[].aggregatedOutput",
            "thread.turns[].items[].commandActions",
            "thread.turns[].items[].commandActions[]",
            "thread.turns[].items[].commandActions[].command",
            "thread.turns[].items[].commandActions[].name",
            "thread.turns[].items[].commandActions[].path",
            "thread.turns[].items[].commandActions[].type",
            "thread.name",
        ],
    ),
    (
        "thread/read",
        &[
            "thread.turns[].items[].phase",
            "thread.turns[].items[].summary",
            "thread.turns[].items[].summary[]",
            "thread.name",
            "thread.turns[].items[].command",
            "thread.turns[].items[].cwd",
            "thread.turns[].items[].source",
            "thread.turns[].items[].status",
            "thread.turns[].items[].aggregatedOutput",
            "thread.turns[].items[].commandActions",
            "thread.turns[].items[].commandActions[]",
            "thread.turns[].items[].commandActions[].command",
            "thread.turns[].items[].commandActions[].name",
            "thread.turns[].items[].commandActions[].path",
            "thread.turns[].items[].commandActions[].type",
        ],
    ),
    (
        "account/read",
        &[
            "account.email",
            "account.planType",
        ],
    ),
    (
        "model/list",
        &[
            "data[].availabilityNux",
            "data[].availabilityNux.message",
            "data[].upgrade",
            "data[].upgradeInfo",
            "data[].upgradeInfo.model",
            "data[].upgradeInfo.upgradeCopy",
            "data[].upgradeInfo.modelLink",
            "data[].upgradeInfo.migrationMarkdown",
        ],
    ),
    (
        "thread/list",
        &[
            "data[].name",
            "data[].agentNickname",
            "data[].agentRole",
            "nextCursor",
            "backwardsCursor",
        ],
    ),
];

fn check(target: TargetId, methods: &[&str], notifications: &[&str]) {
    let div = KnownDivergence::for_target(target);
    assert_eq!(div.target, target);
    let mut expected: Vec<&str> = methods.to_vec();
    expected.extend_from_slice(EVERYWHERE_METHODS);
    assert_eq!(div.skipped_methods, expected);
    let mut expected: Vec<&str> = notifications.to_vec();
    expected.extend_from_slice(EVERYWHERE_NOTIFICATIONS);
    assert_eq!(div.skipped_notifications, expected);
    assert_eq!(div.field_path_divergences.len(), EVERYWHERE_PATHS.len());
    for (entry, expected) in div.field_path_divergences.iter().zip(EVERYWHERE_PATHS) {
        assert_eq!(entry.0, expected.0);
        assert_eq!(entry.1, expected.1);
    }
}

#[test]
fn reference_is_allowed_nothing() {
    let div = KnownDivergence::for_target(TargetId::Codex);
    assert_eq!(div.target, TargetId::Codex);
    assert!(div.skipped_methods.is_empty());
    assert!(div.skipped_notifications.is_empty());
    assert!(div.field_path_divergences.is_empty());
}

#[test]
fn gaps_of_pi() {
    check(
        TargetId::Pi,
        &[
            "review/start",
        ],
        &[
            "configWarning",
        ],
    );
}

#[test]
fn gaps_of_claude() {
    check(
        TargetId::Claude,
        &[],
        &[],
    );
}

#[test]
fn gaps_of_amp() {
    check(
        TargetId::Amp,
        &[
            "thread/fork",
            "thread/rollback",
            "review/start",
        ],
        &[],
    );
}

#[test]
fn gaps_of_opencode() {
    check(
        TargetId::Opencode,
        &[
            "account/login/start",
            "account/login/cancel",
            "account/logout",
            "mcpServer/oauth/login",
            "skills/config/write",
            "configRequirements/read",
            "thread/turns/list",
            "review/start",
        ],
        &[
            "thread/started",
            "thread/closed",
            "skills/changed",
            "turn/diff/updated",
            "turn/plan/updated",
            "item/reasoning/textDelta",
            "item/reasoning/summaryTextDelta",
            "item/reasoning/summaryPartAdded",
            "item/mcpToolCall/progress",
            "item/dynamicToolCall/argumentsDelta",
            "thread/name/updated",
            "model/rerouted",
            "configWarning",
            "deprecationNotice",
            "serverRequest/resolved",
        ],
    );
}

#[test]
fn gaps_of_hermes() {
    check(
        TargetId::Hermes,
        &[
            "account/login/start",
            "account/login/cancel",
            "account/logout",
            "mcpServer/oauth/login",
            "skills/config/write",
            "thread/fork",
            "thread/rollback",
            "review/start",
        ],
        &[
            "thread/name/updated",
            "turn/diff/updated",
            "turn/plan/updated",
            "item/mcpToolCall/progress",
            "item/dynamicToolCall/argumentsDelta",
            "model/rerouted",
            "configWarning",
            "deprecationNotice",
            "serverRequest/resolved",
        ],
    );
}

#[test]
fn gaps_of_droid() {
    check(
        TargetId::Droid,
        &[
            "mcpServer/oauth/login",
            "thread/fork",
            "thread/archive",
            "thread/unarchive",
            "thread/rollback",
            "review/start",
        ],
        &[
            "thread/name/updated",
        ],
    );
}

#[test]
fn gaps_of_acp() {
    check(
        TargetId::Acp,
        &[
            "thread/rollback",
            "thread/archive",
            "thread/unarchive",
            "review/start",
            "command/exec/write",
            "command/exec/resize",
        ],
        &[],
    );
}
