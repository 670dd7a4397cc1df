//! Workload profiles and the representative prompts of each.

use vstd::prelude::*;
use crate::error::owned;
use crate::text::{ascii_lower, lowercase_of, to_lowercase};

verus! {

/// Workload profiles for task-specific calibration.
#[derive(Debug, Clone, Copy, PartialEq, Eq, Hash, Structural)]
pub enum WorkloadProfile {
    General,
    Coding,
    Reasoning,
    LongContext,
    Chat,
    Agentic,
    Custom,
}

pub const GENERAL_PROMPT_1: &'static str = "Explain the fundamentals of TCP congestion control algorithms including Reno and BBR.";

pub const GENERAL_PROMPT_2: &'static str = "Summarize the historical evolution of quantum electrodynamics in 20th century physics.";

pub const GENERAL_PROMPT_3: &'static str = "Discuss the trade-offs between monolithic architectures and event-driven microservices.";

pub const CODING_PROMPT_1: &'static str = "Write a concurrent lock-free bounded queue in Rust using atomic CAS operations.";

pub const CODING_PROMPT_2: &'static str = "Implement a red-black tree with insertion balancing in TypeScript with strict typing.";

pub const CODING_PROMPT_3: &'static str = "fn matrix_multiply(a: &[f32], b: &[f32], m: usize, k: usize, n: usize) -> Vec<f32> {\n    // Implement AVX2 accelerated GEMM\n}";

pub const REASONING_PROMPT_1: &'static str = "Let G be a connected planar graph with V vertices, E edges, and F faces. Prove Euler's formula V - E + F = 2 by induction on edges.";

pub const REASONING_PROMPT_2: &'static str = "Solve the recurrence T(n) = 3T(n/4) + n*log(n) using the Akra-Bazzi method.";

pub const LONG_CONTEXT_PROMPT_1: &'static str = "Document: [System Architecture Design Specification 2026] ... Retrieval query: What is the failover timeout for the distributed consensus raft cluster?";

pub const CHAT_PROMPT_1: &'static str = "<|im_start|>user\nCan you critique this Rust async task spawn pattern?<|im_end|>\n<|im_start|>assistant\nCertainly! Let's analyze safety and potential task leaks:";

pub const AGENTIC_PROMPT_1: &'static str = r#"<system>You are an expert autonomous coding agent with shell execution and filesystem tools.</system>
<user>Fix the memory leak in the connection pool and run cargo test.</user>
<agent_thought>Inspecting src/pool.rs line 142 where Arc<Conn> is stored in the cleanup ringbuffer without weak references.</agent_thought>
<tool_call>{"name": "run_command", "args": {"command": "cargo test --test pool_leak_test"}}</tool_call>
<tool_output>
running 1 test
test pool_leak_test ... FAILED
failures:
---- pool_leak_test stdout ----
thread 'pool_leak_test' panicked at 'assertion failed: remaining_conns == 0, got 4'
</tool_output>
<agent_thought>The test failed because 4 connections remained unreleased. Applying git diff to use Arc::downgrade.</agent_thought>
<diff>
--- a/src/pool.rs
+++ b/src/pool.rs
@@ -142,3 +142,3 @@
-        self.idle_ring.push(conn);
+        self.idle_ring.push(Arc::downgrade(&conn));
</diff>"#;

pub const AGENTIC_PROMPT_2: &'static str = r#"<system>You are an agent executing git rebase and resolving merge conflicts.</system>
<tool_call>{"name": "git_status"}</tool_call>
<tool_output>
Unmerged paths:
  both modified:   src/quant/kernels.rs
</tool_output>
<agent_thought>Conflict detected in NEON intrinsic SIMD block. Selecting upstream vmovl_u8 patch.</agent_thought>"#;

pub const CUSTOM_PROMPT_1: &'static str = "Custom calibration sample text.";

/// The profile named by a lowercase name; unknown names select the general profile.
pub open spec fn profile_from_lower(l: Seq<char>) -> WorkloadProfile {
    if l == "coding"@ || l == "code"@ {
        WorkloadProfile::Coding
    } else if l == "reasoning"@ || l == "math"@ {
        WorkloadProfile::Reasoning
    } else if l == "long-context"@ || l == "long"@ {
        WorkloadProfile::LongContext
    } else if l == "chat"@ || l == "dialogue"@ {
        WorkloadProfile::Chat
    } else if l == "agentic"@ || l == "coding-agent"@ || l == "agent"@ {
        WorkloadProfile::Agentic
    } else if l == "custom"@ {
        WorkloadProfile::Custom
    } else {
        WorkloadProfile::General
    }
}

/// Representative prompts of a profile.
pub open spec fn profile_prompts(p: WorkloadProfile) -> Seq<Seq<char>> {
    match p {
        WorkloadProfile::General => seq![GENERAL_PROMPT_1@, GENERAL_PROMPT_2@, GENERAL_PROMPT_3@],
        WorkloadProfile::Coding => seq![CODING_PROMPT_1@, CODING_PROMPT_2@, CODING_PROMPT_3@],
        WorkloadProfile::Reasoning => seq![REASONING_PROMPT_1@, REASONING_PROMPT_2@],
        WorkloadProfile::LongContext => seq![LONG_CONTEXT_PROMPT_1@],
        WorkloadProfile::Chat => seq![CHAT_PROMPT_1@],
        WorkloadProfile::Agentic => seq![AGENTIC_PROMPT_1@, AGENTIC_PROMPT_2@],
        WorkloadProfile::Custom => seq![CUSTOM_PROMPT_1@],
    }
}

impl WorkloadProfile {
    /// Parses a (case-insensitive) profile name.
    pub fn from_str_name(name: &str) -> (r: Self)
        ensures
            r == profile_from_lower(lowercase_of(name@)),
            vstd::utf8::is_ascii_chars(name@) ==> r == profile_from_lower(name@.map_values(|c: char| ascii_lower(c))),
    {
        let l = to_lowercase(name);
        if l == owned("coding") || l == owned("code") {
            WorkloadProfile::Coding
        } else if l == owned("reasoning") || l == owned("math") {
            WorkloadProfile::Reasoning
        } else if l == owned("long-context") || l == owned("long") {
            WorkloadProfile::LongContext
        } else if l == owned("chat") || l == owned("dialogue") {
            WorkloadProfile::Chat
        } else if l == owned("agentic") || l == owned("coding-agent") || l == owned("agent") {
            WorkloadProfile::Agentic
        } else if l == owned("custom") {
            WorkloadProfile::Custom
        } else {
            WorkloadProfile::General
        }
    }

    /// Display name of the profile.
    pub open spec fn spec_name(self) -> Seq<char> {
        match self {
            WorkloadProfile::General => "general"@,
            WorkloadProfile::Coding => "coding"@,
            WorkloadProfile::Reasoning => "reasoning"@,
            WorkloadProfile::LongContext => "long-context"@,
            WorkloadProfile::Chat => "chat"@,
            WorkloadProfile::Agentic => "agentic"@,
            WorkloadProfile::Custom => "custom"@,
        }
    }

    /// Display name of the profile.
    pub fn name(&self) -> (r: String)
        ensures
            r@ == self.spec_name(),
    {
        match self {
            WorkloadProfile::General => owned("general"),
            WorkloadProfile::Coding => owned("coding"),
            WorkloadProfile::Reasoning => owned("reasoning"),
            WorkloadProfile::LongContext => owned("long-context"),
            WorkloadProfile::Chat => owned("chat"),
            WorkloadProfile::Agentic => owned("agentic"),
            WorkloadProfile::Custom => owned("custom"),
        }
    }

    /// Representative sample texts of the profile.
    pub fn sample_prompts(&self) -> (r: Vec<String>)
        ensures
            r@.map_values(|s: String| s@) == profile_prompts(*self),
    {
        let mut v: Vec<String> = Vec::new();
        match self {
            WorkloadProfile::General => {
                v.push(owned(GENERAL_PROMPT_1));
                v.push(owned(GENERAL_PROMPT_2));
                v.push(owned(GENERAL_PROMPT_3));
            },
            WorkloadProfile::Coding => {
                v.push(owned(CODING_PROMPT_1));
                v.push(owned(CODING_PROMPT_2));
                v.push(owned(CODING_PROMPT_3));
            },
            WorkloadProfile::Reasoning => {
                v.push(owned(REASONING_PROMPT_1));
                v.push(owned(REASONING_PROMPT_2));
            },
            WorkloadProfile::LongContext => {
                v.push(owned(LONG_CONTEXT_PROMPT_1));
            },
            WorkloadProfile::Chat => {
                v.push(owned(CHAT_PROMPT_1));
            },
            WorkloadProfile::Agentic => {
                v.push(owned(AGENTIC_PROMPT_1));
                v.push(owned(AGENTIC_PROMPT_2));
            },
            WorkloadProfile::Custom => {
                v.push(owned(CUSTOM_PROMPT_1));
            },
        }
        assert(v@.map_values(|s: String| s@) =~= profile_prompts(*self));
        v
    }
}

/// Every profile's display name parses back to the profile.
pub proof fn lemma_profile_name_roundtrip(p: WorkloadProfile)
    ensures
        profile_from_lower(p.spec_name()) == p,
{
    reveal_strlit("general");
    reveal_strlit("coding");
    reveal_strlit("code");
    reveal_strlit("reasoning");
    reveal_strlit("math");
    reveal_strlit("long-context");
    reveal_strlit("long");
    reveal_strlit("chat");
    reveal_strlit("dialogue");
    reveal_strlit("agentic");
    reveal_strlit("coding-agent");
    reveal_strlit("agent");
    reveal_strlit("custom");
    match p {
        WorkloadProfile::General => {
            assert("general"@[0] != "coding"@[0] && "general"@[0] != "code"@[0] && "general"@[0] != "reasoning"@[0]);
            assert("general"@[0] != "math"@[0] && "general"@[0] != "long-context"@[0]);
            assert("general"@[0] != "long"@[0] && "general"@[0] != "chat"@[0]);
            assert("general"@[0] != "dialogue"@[0] && "general"@[0] != "agentic"@[0]);
            assert("general"@[0] != "coding-agent"@[0] && "general"@[0] != "agent"@[0]);
            assert("general"@[0] != "custom"@[0]);
        },
        WorkloadProfile::Coding => {},
        WorkloadProfile::Reasoning => {
            assert("reasoning"@[0] != "coding"@[0] && "reasoning"@[0] != "code"@[0]);
        },
        WorkloadProfile::LongContext => {
            assert("long-context"@[0] != "coding"@[0] && "long-context"@[0] != "code"@[0]);
            assert("long-context"@[0] != "reasoning"@[0] && "long-context"@[0] != "math"@[0]);
        },
        WorkloadProfile::Chat => {
            assert("chat"@[1] != "coding"@[1] && "chat"@[1] != "code"@[1]);
            assert("chat"@[0] != "reasoning"@[0] && "chat"@[0] != "math"@[0]);
            assert("chat"@[0] != "long-context"@[0] && "chat"@[0] != "long"@[0]);
        },
        WorkloadProfile::Agentic => {
            assert("agentic"@[0] != "coding"@[0] && "agentic"@[0] != "code"@[0]);
            assert("agentic"@[0] != "reasoning"@[0] && "agentic"@[0] != "math"@[0]);
            assert("agentic"@[0] != "long-context"@[0] && "agentic"@[0] != "long"@[0]);
            assert("agentic"@[0] != "chat"@[0] && "agentic"@[0] != "dialogue"@[0]);
        },
        WorkloadProfile::Custom => {
            assert("custom"@[1] != "coding"@[1] && "custom"@[1] != "code"@[1]);
            assert("custom"@[0] != "reasoning"@[0] && "custom"@[0] != "math"@[0]);
            assert("custom"@[0] != "long-context"@[0] && "custom"@[0] != "long"@[0]);
            assert("custom"@[1] != "chat"@[1] && "custom"@[0] != "dialogue"@[0]);
            assert("custom"@[0] != "agentic"@[0] && "custom"@[1] != "coding-agent"@[1]);
            assert("custom"@[0] != "agent"@[0]);
        },
    }
}

/// Whether every character of a name is a lowercase ASCII letter or a hyphen.
pub open spec fn lower_name(s: Seq<char>) -> bool {
    forall|i: int| 0 <= i < s.len() ==> ('a' <= #[trigger] s[i] <= 'z' || s[i] == '-')
}

/// `lower_name`, one character at a time from the end.
spec fn lower_chars(s: Seq<char>) -> bool
    decreases s.len(),
{
    s.len() == 0 || (('a' <= s.last() <= 'z' || s.last() == '-') && lower_chars(s.drop_last()))
}

proof fn lemma_lower_chars(s: Seq<char>)
    requires
        lower_chars(s),
    ensures
        lower_name(s),
    decreases s.len(),
{
    if s.len() > 0 {
        lemma_lower_chars(s.drop_last());
        assert forall|i: int| 0 <= i < s.len() implies ('a' <= #[trigger] s[i] <= 'z' || s[i] == '-') by {
            if i < s.len() - 1 {
                assert(s[i] == s.drop_last()[i]);
            }
        }
    }
}

/// A name of lowercase letters and hyphens is ASCII and its own ASCII lowercase form.
proof fn lemma_lower_name(s: Seq<char>)
    requires
        lower_name(s),
    ensures
        vstd::utf8::is_ascii_chars(s),
        s.map_values(|c: char| ascii_lower(c)) == s,
{
    assert forall|i: int| 0 <= i < s.len() implies '\0' <= #[trigger] s[i] <= '\u{7f}' by {
        assert('a' <= s[i] <= 'z' || s[i] == '-');
    }
    assert(s.map_values(|c: char| ascii_lower(c)) =~= s);
}

/// Every profile's display name is ASCII and already lowercase, so `from_str_name` of
/// it, in any ASCII letter case, gives the profile back; the aliases `code`, `math`,
/// `long`, `dialogue`, `coding-agent` and `agent` name their profiles too.
pub proof fn lemma_profile_name_parses(p: WorkloadProfile)
    ensures
        vstd::utf8::is_ascii_chars(p.spec_name()),
        p.spec_name().map_values(|c: char| ascii_lower(c)) == p.spec_name(),
        profile_from_lower(p.spec_name().map_values(|c: char| ascii_lower(c))) == p,
        profile_from_lower("code"@) == WorkloadProfile::Coding,
        profile_from_lower("math"@) == WorkloadProfile::Reasoning,
        profile_from_lower("long"@) == WorkloadProfile::LongContext,
        profile_from_lower("dialogue"@) == WorkloadProfile::Chat,
        profile_from_lower("coding-agent"@) == WorkloadProfile::Agentic,
        profile_from_lower("agent"@) == WorkloadProfile::Agentic,
{
    lemma_profile_name_roundtrip(p);
    reveal_strlit("general");
    reveal_strlit("custom");
    reveal_strlit("coding");
    reveal_strlit("reasoning");
    reveal_strlit("long-context");
    reveal_strlit("chat");
    reveal_strlit("agentic");
    reveal_with_fuel(lower_chars, 13);
    match p {
        WorkloadProfile::General => assert(lower_chars("general"@)),
        WorkloadProfile::Coding => assert(lower_chars("coding"@)),
        WorkloadProfile::Reasoning => assert(lower_chars("reasoning"@)),
        WorkloadProfile::LongContext => assert(lower_chars("long-context"@)),
        WorkloadProfile::Chat => assert(lower_chars("chat"@)),
        WorkloadProfile::Agentic => assert(lower_chars("agentic"@)),
        WorkloadProfile::Custom => assert(lower_chars("custom"@)),
    }
    lemma_lower_chars(p.spec_name());
    lemma_lower_name(p.spec_name());
    reveal_strlit("code");
    reveal_strlit("coding");
    reveal_strlit("math");
    reveal_strlit("reasoning");
    reveal_strlit("long");
    reveal_strlit("long-context");
    reveal_strlit("dialogue");
    reveal_strlit("chat");
    reveal_strlit("agent");
    reveal_strlit("agentic");
    reveal_strlit("coding-agent");
    assert("code"@.len() != "coding"@.len());
    assert("math"@[0] != "coding"@[0] && "math"@[0] != "code"@[0] && "math"@[0] != "reasoning"@[0]);
    assert("long"@[0] != "coding"@[0] && "long"@[0] != "reasoning"@[0] && "long"@[0] != "math"@[0]);
    assert("dialogue"@[0] != "coding"@[0] && "dialogue"@[0] != "code"@[0]);
    assert("dialogue"@[0] != "reasoning"@[0] && "dialogue"@[0] != "math"@[0]);
    assert("dialogue"@[0] != "long-context"@[0] && "dialogue"@[0] != "long"@[0] && "dialogue"@[0] != "chat"@[0]);
    assert("coding-agent"@ != "coding"@ && "coding-agent"@ != "code"@);
    assert("coding-agent"@[0] != "reasoning"@[0] && "coding-agent"@[0] != "math"@[0]);
    assert("coding-agent"@[0] != "long-context"@[0] && "coding-agent"@[0] != "long"@[0]);
    assert("coding-agent"@[1] != "chat"@[1] && "coding-agent"@[0] != "dialogue"@[0]);
    assert("coding-agent"@ != "agentic"@);
    assert("agent"@[0] != "coding"@[0] && "agent"@[0] != "code"@[0] && "agent"@[0] != "reasoning"@[0]);
    assert("agent"@[0] != "math"@[0] && "agent"@[0] != "long-context"@[0] && "agent"@[0] != "long"@[0]);
    assert("agent"@[0] != "chat"@[0] && "agent"@[0] != "dialogue"@[0]);
    assert("agent"@.len() != "agentic"@.len() && "agent"@.len() != "coding-agent"@.len());
}

} // verus!
