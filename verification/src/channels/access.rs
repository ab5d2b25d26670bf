//! Which senders may interact.

use crate::text::{same_text, texts};
use vstd::prelude::*;
use vstd::string::*;

verus! {

/// Per-channel access policy controlling which sender IDs may interact.
#[derive(Debug, Clone)]
pub enum AllowPolicy {
    /// Anyone may interact. Written as the string `"open"`.
    Open,
    /// Only the listed sender IDs may interact. Written as a JSON array.
    List(Vec<String>),
}

/// An access policy as a configuration file writes it.
#[derive(Debug, Clone)]
pub enum AllowPolicyWire {
    Open(String),
    List(Vec<String>),
}

impl AllowPolicy {
    /// Whether the policy allows `sender`.
    pub open spec fn allows(self, sender: Seq<char>) -> bool {
        match self {
            AllowPolicy::Open => true,
            AllowPolicy::List(ids) => texts(ids@).contains(sender),
        }
    }

    /// Check whether a sender is allowed by this policy.
    pub fn is_allowed(&self, sender_id: &str) -> (r: bool)
        ensures
            r == self.allows(sender_id@),
    {
        match self {
            AllowPolicy::Open => true,
            AllowPolicy::List(ids) => {
                let mut i: usize = 0;
                while i < ids.len()
                    invariant
                        *self == AllowPolicy::List(*ids),
                        i <= ids@.len(),
                        forall|k: int| 0 <= k < i ==> #[trigger] texts(ids@)[k] != sender_id@,
                    decreases ids@.len() - i,
                {
                    if same_text(ids[i].as_str(), sender_id) {
                        assert(texts(ids@)[i as int] == sender_id@);
                        return true;
                    }
                    i = i + 1;
                }
                false
            },
        }
    }
}

impl Default for AllowPolicy {
    /// Deny all by default.
    fn default() -> (r: Self)
        ensures
            forall|sender: Seq<char>| !#[trigger] r.allows(sender),
            r matches AllowPolicy::List(ids) && ids@.len() == 0,
    {
        AllowPolicy::List(Vec::new())
    }
}

/// What is said of a word that is no policy.
pub open spec fn refusal(word: Seq<char>) -> Seq<char> {
    "expected \"open\", got \""@ + word + "\""@
}

impl vstd::std_specs::convert::TryFromSpecImpl<AllowPolicyWire> for AllowPolicy {
    /// The contract of `try_from` stands at the function: it speaks of the
    /// text of the error, which is all that is known of a string.
    open spec fn obeys_try_from_spec() -> bool {
        false
    }

    open spec fn try_from_spec(value: AllowPolicyWire) -> Result<AllowPolicy, String> {
        match value {
            AllowPolicyWire::Open(word) => if word@ == "open"@ {
                Ok(AllowPolicy::Open)
            } else {
                Err(choose|message: String| message@ == refusal(word@))
            },
            AllowPolicyWire::List(ids) => Ok(AllowPolicy::List(ids)),
        }
    }
}

impl TryFrom<AllowPolicyWire> for AllowPolicy {
    type Error = String;

    /// The policy that a configuration file writes: the string `open`, or a
    /// list of sender IDs.
    fn try_from(value: AllowPolicyWire) -> (r: Result<Self, String>)
        ensures
            match value {
                AllowPolicyWire::Open(word) => if word@ == "open"@ {
                    r == Ok::<AllowPolicy, String>(AllowPolicy::Open)
                } else {
                    r is Err && r->Err_0@ == refusal(word@)
                },
                AllowPolicyWire::List(ids) => r == Ok::<AllowPolicy, String>(
                    AllowPolicy::List(ids),
                ),
            },
    {
        match value {
            AllowPolicyWire::Open(word) => {
                if same_text(word.as_str(), "open") {
                    Ok(AllowPolicy::Open)
                } else {
                    let mut message = String::new();
                    message.append("expected \"open\", got \"");
                    message.append(word.as_str());
                    message.append("\"");
                    Err(message)
                }
            },
            AllowPolicyWire::List(ids) => Ok(AllowPolicy::List(ids)),
        }
    }
}

/// An open policy allows everyone, and a list allows just those whose ID it
/// holds.
pub proof fn policies_allow_whom_they_list(policy: &AllowPolicy, sender: &str, allowed: bool)
    requires
        call_ensures(AllowPolicy::is_allowed, (policy, sender), allowed),
    ensures
        match *policy {
            AllowPolicy::Open => allowed,
            AllowPolicy::List(ids) => allowed == exists|i: int|
                0 <= i < ids@.len() && #[trigger] ids@[i]@ == sender@,
        },
{
    if let AllowPolicy::List(ids) = *policy {
        if allowed {
            let i = choose|i: int| 0 <= i < texts(ids@).len() && texts(ids@)[i] == sender@;
            assert(ids@[i]@ == sender@);
        }
        assert forall|i: int|
            0 <= i < ids@.len() && #[trigger] ids@[i]@ == sender@ implies allowed by {
            assert(texts(ids@)[i] == sender@);
        }
    }
}

/// What a refused word is told: the one word there is, and its own.
pub proof fn refusals_quote_the_word(word: Seq<char>)
    ensures
        refusal(word) == "expected \"open\", got \""@ + word + "\""@,
{
}

/// Where no policy is given, nobody is allowed.
pub proof fn nobody_is_allowed_by_default(policy: AllowPolicy, sender: &str, allowed: bool)
    requires
        call_ensures(<AllowPolicy as Default>::default, (), policy),
        call_ensures(AllowPolicy::is_allowed, (&policy, sender), allowed),
    ensures
        !allowed,
{
}

/// A configuration writes the word `open`, or a list, which is kept as it is. Any
/// other word is refused, and quoted.
pub proof fn policies_are_written_as_open_or_a_list(
    wire: AllowPolicyWire,
    read: Result<AllowPolicy, String>,
)
    requires
        call_ensures(<AllowPolicy as TryFrom<AllowPolicyWire>>::try_from, (wire,), read),
    ensures
        match wire {
            AllowPolicyWire::List(ids) => read matches Ok(AllowPolicy::List(kept)) && kept@ == ids@,
            AllowPolicyWire::Open(word) => if word@ == "open"@ {
                read matches Ok(AllowPolicy::Open)
            } else {
                read matches Err(said) && said@ == "expected \"open\", got \""@ + word@ + "\""@
            },
        },
{
}

}
