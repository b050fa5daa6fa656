//! The services the command line knows, by name or alias.
use vstd::prelude::*;
use crate::text::{all_ascii, ascii_lowercase, chars_of, eq_chars, spec_to_lowercase, str_to_lowercase};

verus! {

/// The service a lower-case name or alias stands for.
pub open spec fn service_named(name: Seq<char>) -> Option<&'static str> {
    if name == "gelbooru.com"@ || name == "gelbu"@ || name == "gel"@ || name == "gelbooru"@ {
        Some("gelbooru.com")
    } else if name == "desu.uno"@ || name == "desu"@ {
        Some("desu.uno")
    } else if name == "mangadex.org"@ || name == "mangadex"@ || name == "md"@ || name == "mdex"@ {
        Some("mangadex.org")
    } else if name == "patreon.com"@ || name == "patreon"@ {
        Some("patreon.com")
    } else {
        None
    }
}

/// The canonical name of the service a user named (its full name or an
/// alias, in any case).
pub fn resolve_service(input: &str) -> (r: Option<&'static str>)
    ensures
        r == service_named(spec_to_lowercase(input@)),
        all_ascii(input@) ==> r == service_named(ascii_lowercase(input@)),
{
    let lower = str_to_lowercase(input);
    let l = chars_of(lower.as_str());
    let s = l.as_slice();
    if eq_chars(s, chars_of("gelbooru.com").as_slice()) || eq_chars(s, chars_of("gelbu").as_slice())
        || eq_chars(s, chars_of("gel").as_slice()) || eq_chars(s, chars_of("gelbooru").as_slice()) {
        Some("gelbooru.com")
    } else if eq_chars(s, chars_of("desu.uno").as_slice()) || eq_chars(s, chars_of("desu").as_slice()) {
        Some("desu.uno")
    } else if eq_chars(s, chars_of("mangadex.org").as_slice()) || eq_chars(
        s,
        chars_of("mangadex").as_slice(),
    ) || eq_chars(s, chars_of("md").as_slice()) || eq_chars(s, chars_of("mdex").as_slice()) {
        Some("mangadex.org")
    } else if eq_chars(s, chars_of("patreon.com").as_slice()) || eq_chars(
        s,
        chars_of("patreon").as_slice(),
    ) {
        Some("patreon.com")
    } else {
        None
    }
}

/// The names of gelbooru.com find it.
#[verifier::spinoff_prover]
proof fn lemma_gelbooru_names()
    ensures
        service_named("gelbooru.com"@) == Some("gelbooru.com"),
        service_named("gelbu"@) == Some("gelbooru.com"),
        service_named("gel"@) == Some("gelbooru.com"),
        service_named("gelbooru"@) == Some("gelbooru.com"),
{
    reveal_strlit("gelbooru.com");
    reveal_strlit("gelbu");
    reveal_strlit("gel");
    reveal_strlit("gelbooru");
    reveal_strlit("desu.uno");
    reveal_strlit("desu");
    reveal_strlit("mangadex.org");
    reveal_strlit("mangadex");
    reveal_strlit("md");
    reveal_strlit("mdex");
    reveal_strlit("patreon.com");
    reveal_strlit("patreon");
    assert("gelbooru.com"@[0] != "mangadex.org"@[0]);
    assert("gelbooru"@[0] != "desu.uno"@[0]);
    assert("gelbooru"@[0] != "mangadex"@[0]);
    assert("desu.uno"@[0] != "mangadex"@[0]);
    assert("desu"@[0] != "mdex"@[0]);

}

/// The names of desu.uno find it.
#[verifier::spinoff_prover]
proof fn lemma_desu_names()
    ensures
        service_named("desu.uno"@) == Some("desu.uno"),
        service_named("desu"@) == Some("desu.uno"),
{
    reveal_strlit("gelbooru.com");
    reveal_strlit("gelbu");
    reveal_strlit("gel");
    reveal_strlit("gelbooru");
    reveal_strlit("desu.uno");
    reveal_strlit("desu");
    reveal_strlit("mangadex.org");
    reveal_strlit("mangadex");
    reveal_strlit("md");
    reveal_strlit("mdex");
    reveal_strlit("patreon.com");
    reveal_strlit("patreon");
    assert("gelbooru.com"@[0] != "mangadex.org"@[0]);
    assert("gelbooru"@[0] != "desu.uno"@[0]);
    assert("gelbooru"@[0] != "mangadex"@[0]);
    assert("desu.uno"@[0] != "mangadex"@[0]);
    assert("desu"@[0] != "mdex"@[0]);
    assert("desu.uno"@.len() != "gelbooru.com"@.len());
    assert("desu.uno"@.len() != "gelbu"@.len());
    assert("desu.uno"@.len() != "gel"@.len());
    assert("desu.uno"@[0] != "gelbooru"@[0]);
    assert("desu"@.len() != "gelbooru.com"@.len());
    assert("desu"@.len() != "gelbu"@.len());
    assert("desu"@.len() != "gel"@.len());
    assert("desu"@.len() != "gelbooru"@.len());
}

/// The names of mangadex.org find it.
#[verifier::spinoff_prover]
proof fn lemma_mangadex_names()
    ensures
        service_named("mangadex.org"@) == Some("mangadex.org"),
        service_named("mangadex"@) == Some("mangadex.org"),
        service_named("md"@) == Some("mangadex.org"),
        service_named("mdex"@) == Some("mangadex.org"),
{
    reveal_strlit("gelbooru.com");
    reveal_strlit("gelbu");
    reveal_strlit("gel");
    reveal_strlit("gelbooru");
    reveal_strlit("desu.uno");
    reveal_strlit("desu");
    reveal_strlit("mangadex.org");
    reveal_strlit("mangadex");
    reveal_strlit("md");
    reveal_strlit("mdex");
    reveal_strlit("patreon.com");
    reveal_strlit("patreon");
    assert("gelbooru.com"@[0] != "mangadex.org"@[0]);
    assert("gelbooru"@[0] != "desu.uno"@[0]);
    assert("gelbooru"@[0] != "mangadex"@[0]);
    assert("desu.uno"@[0] != "mangadex"@[0]);
    assert("desu"@[0] != "mdex"@[0]);
    assert("mangadex.org"@[0] != "gelbooru.com"@[0]);
    assert("mangadex.org"@.len() != "gelbu"@.len());
    assert("mangadex.org"@.len() != "gel"@.len());
    assert("mangadex.org"@.len() != "gelbooru"@.len());
    assert("mangadex.org"@.len() != "desu.uno"@.len());
    assert("mangadex.org"@.len() != "desu"@.len());
    assert("mangadex"@.len() != "gelbooru.com"@.len());
    assert("mangadex"@.len() != "gelbu"@.len());
    assert("mangadex"@.len() != "gel"@.len());
    assert("mangadex"@[0] != "gelbooru"@[0]);
    assert("mangadex"@[0] != "desu.uno"@[0]);
    assert("mangadex"@.len() != "desu"@.len());
    assert("md"@.len() != "gelbooru.com"@.len());
    assert("md"@.len() != "gelbu"@.len());
    assert("md"@.len() != "gel"@.len());
    assert("md"@.len() != "gelbooru"@.len());
    assert("md"@.len() != "desu.uno"@.len());
    assert("md"@.len() != "desu"@.len());
    assert("mdex"@.len() != "gelbooru.com"@.len());
    assert("mdex"@.len() != "gelbu"@.len());
    assert("mdex"@.len() != "gel"@.len());
    assert("mdex"@.len() != "gelbooru"@.len());
    assert("mdex"@.len() != "desu.uno"@.len());
    assert("mdex"@[0] != "desu"@[0]);
}

/// The names of patreon.com find it.
#[verifier::spinoff_prover]
proof fn lemma_patreon_names()
    ensures
        service_named("patreon.com"@) == Some("patreon.com"),
        service_named("patreon"@) == Some("patreon.com"),
{
    reveal_strlit("gelbooru.com");
    reveal_strlit("gelbu");
    reveal_strlit("gel");
    reveal_strlit("gelbooru");
    reveal_strlit("desu.uno");
    reveal_strlit("desu");
    reveal_strlit("mangadex.org");
    reveal_strlit("mangadex");
    reveal_strlit("md");
    reveal_strlit("mdex");
    reveal_strlit("patreon.com");
    reveal_strlit("patreon");
    assert("gelbooru.com"@[0] != "mangadex.org"@[0]);
    assert("gelbooru"@[0] != "desu.uno"@[0]);
    assert("gelbooru"@[0] != "mangadex"@[0]);
    assert("desu.uno"@[0] != "mangadex"@[0]);
    assert("desu"@[0] != "mdex"@[0]);
    assert("patreon.com"@.len() != "gelbooru.com"@.len());
    assert("patreon.com"@.len() != "gelbu"@.len());
    assert("patreon.com"@.len() != "gel"@.len());
    assert("patreon.com"@.len() != "gelbooru"@.len());
    assert("patreon.com"@.len() != "desu.uno"@.len());
    assert("patreon.com"@.len() != "desu"@.len());
    assert("patreon.com"@.len() != "mangadex.org"@.len());
    assert("patreon.com"@.len() != "mangadex"@.len());
    assert("patreon.com"@.len() != "md"@.len());
    assert("patreon.com"@.len() != "mdex"@.len());
    assert("patreon"@.len() != "gelbooru.com"@.len());
    assert("patreon"@.len() != "gelbu"@.len());
    assert("patreon"@.len() != "gel"@.len());
    assert("patreon"@.len() != "gelbooru"@.len());
    assert("patreon"@.len() != "desu.uno"@.len());
    assert("patreon"@.len() != "desu"@.len());
    assert("patreon"@.len() != "mangadex.org"@.len());
    assert("patreon"@.len() != "mangadex"@.len());
    assert("patreon"@.len() != "md"@.len());
    assert("patreon"@.len() != "mdex"@.len());
}

/// A service's canonical name stands for that service itself: whatever
/// name or alias a service is found by, looking its canonical name up gives
/// the same service; and each listed name and alias finds its service.
pub proof fn law_canonical_names_resolve_to_themselves(name: Seq<char>)
    ensures
        service_named(name) matches Some(t) ==> service_named(t@) == Some(t),
        service_named("gelbooru.com"@) == Some("gelbooru.com"),
        service_named("gelbu"@) == Some("gelbooru.com"),
        service_named("gel"@) == Some("gelbooru.com"),
        service_named("gelbooru"@) == Some("gelbooru.com"),
        service_named("desu.uno"@) == Some("desu.uno"),
        service_named("desu"@) == Some("desu.uno"),
        service_named("mangadex.org"@) == Some("mangadex.org"),
        service_named("mangadex"@) == Some("mangadex.org"),
        service_named("md"@) == Some("mangadex.org"),
        service_named("mdex"@) == Some("mangadex.org"),
        service_named("patreon.com"@) == Some("patreon.com"),
        service_named("patreon"@) == Some("patreon.com"),
{
    lemma_gelbooru_names();
    lemma_desu_names();
    lemma_mangadex_names();
    lemma_patreon_names();
}

} // verus!
