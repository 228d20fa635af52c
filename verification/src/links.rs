//! The links that the bot takes.
use vstd::prelude::*;

use crate::text::{contains, contains_text, law_contains_text};

verus! {

/// Links to X or YouTube: one of their host names stands somewhere in the text.
pub open spec fn supported(s: Seq<char>) -> bool {
    ||| contains_text(s, "twitter.com"@)
    ||| contains_text(s, "x.com"@)
    ||| contains_text(s, "youtube.com"@)
    ||| contains_text(s, "youtu.be"@)
}

/// Whether the bot takes the link.
pub fn is_supported_url(s: &str) -> (r: bool)
    ensures
        r == supported(s@),
{
    contains(s, "twitter.com") || contains(s, "x.com") || contains(s, "youtube.com") || contains(
        s,
        "youtu.be",
    )
}

/// Whatever stands before and after it, each of the four host names makes a link.
pub proof fn law_hosts_are_supported(a: Seq<char>, b: Seq<char>)
    ensures
        supported(a + "twitter.com"@ + b),
        supported(a + "x.com"@ + b),
        supported(a + "youtube.com"@ + b),
        supported(a + "youtu.be"@ + b),
{
    law_contains_text(a + "twitter.com"@ + b, "twitter.com"@);
    law_contains_text(a + "x.com"@ + b, "x.com"@);
    law_contains_text(a + "youtube.com"@ + b, "youtube.com"@);
    law_contains_text(a + "youtu.be"@ + b, "youtu.be"@);
}

/// Nothing else makes one.
pub proof fn law_only_hosts_are_supported(s: Seq<char>)
    requires
        supported(s),
    ensures
        exists|a: Seq<char>, b: Seq<char>|
            {
                ||| s == #[trigger] (a + "twitter.com"@ + b)
                ||| s == a + "x.com"@ + b
                ||| s == a + "youtube.com"@ + b
                ||| s == a + "youtu.be"@ + b
            },
{
    law_contains_text(s, "twitter.com"@);
    law_contains_text(s, "x.com"@);
    law_contains_text(s, "youtube.com"@);
    law_contains_text(s, "youtu.be"@);
    if contains_text(s, "twitter.com"@) {
        let (a, b) = choose|a: Seq<char>, b: Seq<char>| s == #[trigger] (a + "twitter.com"@ + b);
        assert(s == a + "twitter.com"@ + b);
    } else if contains_text(s, "x.com"@) {
        let (a, b) = choose|a: Seq<char>, b: Seq<char>| s == #[trigger] (a + "x.com"@ + b);
        let other = a + "twitter.com"@ + b;
        assert(s == a + "x.com"@ + b);
    } else if contains_text(s, "youtube.com"@) {
        let (a, b) = choose|a: Seq<char>, b: Seq<char>| s == #[trigger] (a + "youtube.com"@ + b);
        let other = a + "twitter.com"@ + b;
        assert(s == a + "youtube.com"@ + b);
    } else {
        let (a, b) = choose|a: Seq<char>, b: Seq<char>| s == #[trigger] (a + "youtu.be"@ + b);
        let other = a + "twitter.com"@ + b;
        assert(s == a + "youtu.be"@ + b);
    }
}

} // verus!
