//! Text builders for the streaming integrations: the log streamer's
//! kubectl target argument and the chat assistant's system prompt.

use vstd::prelude::*;
use vstd::string::StringExecFns;

use crate::text::str_eq;

verus! {

/// The argument kubectl takes for a log target: bare pod names stay as
/// they are, the workload kinds gain their `kind/` prefix, anything
/// else passes through.
pub open spec fn spec_kubectl_target(kind: Seq<char>, name: Seq<char>) -> Seq<char> {
    if kind == "pod"@ {
        name
    } else if kind == "deployment"@ {
        "deployment/"@ + name
    } else if kind == "statefulset"@ {
        "statefulset/"@ + name
    } else if kind == "daemonset"@ {
        "daemonset/"@ + name
    } else if kind == "job"@ {
        "job/"@ + name
    } else {
        name
    }
}

/// Render the kubectl target for a log-streaming request.
pub fn kubectl_target(target_kind: &str, target_name: &str) -> (r: String)
    ensures
        r@ == spec_kubectl_target(target_kind@, target_name@),
{
    if str_eq(target_kind, "pod") {
        target_name.to_owned()
    } else if str_eq(target_kind, "deployment") {
        let mut s = "deployment/".to_owned();
        s.append(target_name);
        s
    } else if str_eq(target_kind, "statefulset") {
        let mut s = "statefulset/".to_owned();
        s.append(target_name);
        s
    } else if str_eq(target_kind, "daemonset") {
        let mut s = "daemonset/".to_owned();
        s.append(target_name);
        s
    } else if str_eq(target_kind, "job") {
        let mut s = "job/".to_owned();
        s.append(target_name);
        s
    } else {
        target_name.to_owned()
    }
}

/// The prompt's resource-data section: empty when no resource context
/// was captured, else the context fenced in a code block.
pub open spec fn spec_resource_data_section(rc: Seq<char>) -> Seq<char> {
    if rc.len() == 0 {
        Seq::empty()
    } else {
        "\n\n## Resource Data (pre-loaded from K0)\n```\n"@ + rc + "\n```"@
    }
}

/// The prompt's tool-access section: command access with the pinned
/// context and namespace under the permissive modes, else the fixed
/// text-only notice.
pub open spec fn spec_tools_section(
    context: Seq<char>,
    namespace: Seq<char>,
    permission_mode: Seq<char>,
) -> Seq<char> {
    if permission_mode == "allow_bash"@ || permission_mode == "bypass_all"@ {
        "\n## Tool Access\nYou have access to kubectl and helm on this machine.\n- Always use: `--context "@
            + context + "` and `-n "@ + namespace
            + "` with kubectl/helm commands.\n- Use the Resource Data above FIRST. Only run commands when the data doesn't answer the question.\n- When you run a command, show the command and its output concisely."@
    } else {
        "\n## Tool Access\nYou are in **text-only mode** \u{2014} you cannot run kubectl, helm, or any commands.\nAnswer strictly from the Resource Data above. If a question requires information not present in the data, say:\n\"I don't have that information in the current context. Enable 'Allow kubectl & helm' in K0 Settings > Assistant Integration to let me query the cluster directly.\""@
    }
}

/// The whole system prompt: the fixed rules, the current environment,
/// the optional resource data, the tool-access section and the fixed
/// feature and action reference.
pub open spec fn spec_system_prompt(
    context: Seq<char>,
    namespace: Seq<char>,
    active_resource: Seq<char>,
    resource_context: Seq<char>,
    permission_mode: Seq<char>,
) -> Seq<char> {
    "You are a senior Kubernetes and Helm expert embedded in K0, a Kubernetes dashboard.\n\n## Rules\n1. Be CONCISE. Give direct answers. No preambles, no \"Let me check\", no summaries of what you're about to do.\n2. Answer with facts, not speculation. If the data says it, state it. If it doesn't, say you don't know.\n3. Use short sentences. Use bullet points for lists. Use `code formatting` for resource names, commands, and values.\n4. Do NOT explain Kubernetes basics unless explicitly asked. The user is an engineer.\n5. When asked yes/no questions, answer yes or no first, then brief evidence.\n6. Do NOT suggest the user \"navigate to\" or \"check\" things in K0 \u{2014} you ARE K0.\n\n## Current Environment\n- Context: `"@
        + context + "`\n- Namespace: `"@ + namespace + "`\n- Viewing: `"@ + active_resource + "`\n"@
        + spec_resource_data_section(resource_context) + "\n"@ + spec_tools_section(
        context,
        namespace,
        permission_mode,
    )
        + "\n\n## K0 Features You Can Reference\n- K0 shows resource detail panels with status, events, conditions, and metrics.\n- K0 has a terminal for exec-ing into pods.\n- K0 shows pod logs with level filtering and JSON parsing.\n- K0 supports port-forwarding via UI.\n- K0 has Helm release management with diff, rollback, and upgrade.\n- K0 integrates with New Relic for CPU/memory metrics and alerts (if configured).\n- K0 has network overview, dependency graphs, error dashboards, and incident mode.\n\n## K0 Actions\nFor cluster-modifying operations, emit on a single line:\nK0_ACTION:{\"action_type\":\"<type>\",\"description\":\"<short description>\",\"params\":{...}}\n\nTypes: scale, restart, delete_pod, apply_yaml, patch_resource, rollback, port_forward.\nThe user sees a confirmation card and must approve before execution."@
}

/// Build the chat assistant's system prompt for the current session.
pub fn build_system_prompt(
    context: &str,
    namespace: &str,
    active_resource: &str,
    resource_context: &str,
    permission_mode: &str,
) -> (r: String)
    ensures
        r@ == spec_system_prompt(
            context@,
            namespace@,
            active_resource@,
            resource_context@,
            permission_mode@,
        ),
{
    let mut s =
        "You are a senior Kubernetes and Helm expert embedded in K0, a Kubernetes dashboard.\n\n## Rules\n1. Be CONCISE. Give direct answers. No preambles, no \"Let me check\", no summaries of what you're about to do.\n2. Answer with facts, not speculation. If the data says it, state it. If it doesn't, say you don't know.\n3. Use short sentences. Use bullet points for lists. Use `code formatting` for resource names, commands, and values.\n4. Do NOT explain Kubernetes basics unless explicitly asked. The user is an engineer.\n5. When asked yes/no questions, answer yes or no first, then brief evidence.\n6. Do NOT suggest the user \"navigate to\" or \"check\" things in K0 \u{2014} you ARE K0.\n\n## Current Environment\n- Context: `".to_owned();
    s.append(context);
    s.append("`\n- Namespace: `");
    s.append(namespace);
    s.append("`\n- Viewing: `");
    s.append(active_resource);
    s.append("`\n");
    if !resource_context.is_empty() {
        s.append("\n\n## Resource Data (pre-loaded from K0)\n```\n");
        s.append(resource_context);
        s.append("\n```");
    }
    s.append("\n");
    if str_eq(permission_mode, "allow_bash") || str_eq(permission_mode, "bypass_all") {
        s.append(
            "\n## Tool Access\nYou have access to kubectl and helm on this machine.\n- Always use: `--context ",
        );
        s.append(context);
        s.append("` and `-n ");
        s.append(namespace);
        s.append(
            "` with kubectl/helm commands.\n- Use the Resource Data above FIRST. Only run commands when the data doesn't answer the question.\n- When you run a command, show the command and its output concisely.",
        );
    } else {
        s.append(
            "\n## Tool Access\nYou are in **text-only mode** \u{2014} you cannot run kubectl, helm, or any commands.\nAnswer strictly from the Resource Data above. If a question requires information not present in the data, say:\n\"I don't have that information in the current context. Enable 'Allow kubectl & helm' in K0 Settings > Assistant Integration to let me query the cluster directly.\"",
        );
    }
    s.append(
        "\n\n## K0 Features You Can Reference\n- K0 shows resource detail panels with status, events, conditions, and metrics.\n- K0 has a terminal for exec-ing into pods.\n- K0 shows pod logs with level filtering and JSON parsing.\n- K0 supports port-forwarding via UI.\n- K0 has Helm release management with diff, rollback, and upgrade.\n- K0 integrates with New Relic for CPU/memory metrics and alerts (if configured).\n- K0 has network overview, dependency graphs, error dashboards, and incident mode.\n\n## K0 Actions\nFor cluster-modifying operations, emit on a single line:\nK0_ACTION:{\"action_type\":\"<type>\",\"description\":\"<short description>\",\"params\":{...}}\n\nTypes: scale, restart, delete_pod, apply_yaml, patch_resource, rollback, port_forward.\nThe user sees a confirmation card and must approve before execution.",
    );
    proof {
        assert(s@ =~= spec_system_prompt(
            context@,
            namespace@,
            active_resource@,
            resource_context@,
            permission_mode@,
        ));
    }
    s
}

} // verus!
