//! The reproducibility report of `pn info`.

use vstd::prelude::*;
use crate::domain::manifest::Manifest;

verus! {

/// The one warning `text` unless `ok` holds.
#[verifier::opaque]
pub open spec fn unless(ok: bool, text: Seq<char>) -> Seq<Seq<char>> {
    if ok {
        Seq::empty()
    } else {
        seq![text]
    }
}

/// The warnings of the report, in the order they are checked.
pub open spec fn repro_warnings(m: &Manifest, signed: bool) -> Seq<Seq<char>> {
    unless(m.contents.config, "no config packed — bundle may not be self-contained"@) + unless(
        m.contents.skills,
        "no skills packed — agent capabilities may differ"@,
    ) + unless(m.contents.memory, "no memory packed — session history lost"@) + (if m.contents.secrets {
        unless(m.security.secrets_encrypted, "secrets present but not encrypted"@)
    } else {
        unless(false, "no secrets packed — API keys may be missing"@)
    }) + unless(m.integrity.checksum is Some, "no checksum — bundle integrity unverified"@)
        + unless(signed, "unsigned bundle — authenticity unverified"@) + unless(
        m.platform is Some,
        "no platform info — cross-platform compatibility unknown"@,
    ) + unless(m.runtime.required@.len() > 0, "no runtime requirements specified"@)
}

/// `n` points when `ok` holds.
#[verifier::opaque]
pub open spec fn pts(ok: bool, n: int) -> int {
    if ok {
        n
    } else {
        0
    }
}

/// Points for secrets: 15 when encrypted, 5 when present unencrypted.
pub open spec fn secret_pts(m: &Manifest) -> int {
    if m.contents.secrets && m.security.secrets_encrypted {
        15
    } else if m.contents.secrets {
        5
    } else {
        0
    }
}

/// The points of a bundle before the cap; `clean` says whether nothing
/// warns.
pub open spec fn repro_points(m: &Manifest, signed: bool, clean: bool) -> int {
    pts(m.contents.config, 15) + pts(m.contents.skills, 15) + pts(m.contents.memory, 10)
        + secret_pts(m) + pts(m.integrity.checksum is Some, 10) + pts(signed, 10) + pts(
        m.platform is Some,
        5,
    ) + pts(m.origin is Some, 5) + pts(m.runtime.required@.len() > 0, 5) + pts(
        m.packages.extensions@.len() + m.packages.skills@.len() + m.packages.themes@.len() > 0,
        5,
    ) + pts(clean, 5)
}

/// The score: config 15, skills 15, memory 10, encrypted secrets 15 (5 when
/// not encrypted), checksum 10, signature 10, platform 5, origin 5, runtime
/// requirements 5, packages 5, and 5 more when nothing warns; at most 100.
pub open spec fn repro_score(m: &Manifest, signed: bool) -> int {
    cap_score(repro_points(m, signed, repro_warnings(m, signed).len() == 0))
}

/// A number of points, capped at 100.
pub open spec fn cap_score(s: int) -> int {
    if s > 100 {
        100
    } else {
        s
    }
}

fn push_unless(w: &mut Vec<String>, ok: bool, text: &str)
    ensures
        final(w)@.map_values(|s: String| s@) == old(w)@.map_values(|s: String| s@) + unless(
            ok,
            text@,
        ),
{
    reveal(unless);
    let ghost before = w@.map_values(|s: String| s@);
    if !ok {
        w.push(String::from_str(text));
        assert(w@.map_values(|s: String| s@) =~= before + seq![text@]);
    } else {
        assert(w@.map_values(|s: String| s@) =~= before + Seq::<Seq<char>>::empty());
    }
}

fn points(ok: bool, n: u32) -> (r: u32)
    ensures
        r == pts(ok, n as int),
        r <= n,
{
    reveal(pts);
    if ok {
        n
    } else {
        0
    }
}

fn has_packages(m: &Manifest) -> (r: bool)
    ensures
        r == (m.packages.extensions@.len() + m.packages.skills@.len() + m.packages.themes@.len()
            > 0),
{
    m.packages.extensions.len() > 0 || m.packages.skills.len() > 0 || m.packages.themes.len() > 0
}

#[verifier::spinoff_prover]
#[verifier::rlimit(60)]
fn repro_score_exec(m: &Manifest, signed: bool, clean: bool) -> (r: u32)
    ensures
        r == repro_points(m, signed, clean),
{
    let secrets_points: u32 = if m.contents.secrets && m.security.secrets_encrypted {
        15
    } else if m.contents.secrets {
        5
    } else {
        0
    };
    let p1 = points(m.contents.config, 15);
    let p2 = points(m.contents.skills, 15);
    let p3 = points(m.contents.memory, 10);
    let p4 = points(m.integrity.checksum.is_some(), 10);
    let p5 = points(signed, 10);
    let p6 = points(m.platform.is_some(), 5);
    let p7 = points(m.origin.is_some(), 5);
    let p8 = points(m.runtime.required.len() > 0, 5);
    let p9 = points(has_packages(m), 5);
    let p10 = points(clean, 5);
    assert(secrets_points == secret_pts(m));
    assert(p1 == pts(m.contents.config, 15));
    assert(p9 == pts(
            m.packages.extensions@.len() + m.packages.skills@.len() + m.packages.themes@.len() > 0,
            5,
        ));
    assert(p10 == pts(clean, 5));
    proof {
        lemma_points_sum(m, signed, clean, secrets_points as int, p1 as int, p2 as int, p3 as int, p4 as int, p5 as int, p6 as int, p7 as int, p8 as int, p9 as int, p10 as int);
    }
    let total = p1 + p2 + p3 + secrets_points + p4 + p5 + p6 + p7 + p8 + p9 + p10;
    assert(total == repro_points(m, signed, clean));
    total
}

proof fn lemma_points_sum(
    m: &Manifest,
    signed: bool,
    clean: bool,
    sp: int,
    p1: int,
    p2: int,
    p3: int,
    p4: int,
    p5: int,
    p6: int,
    p7: int,
    p8: int,
    p9: int,
    p10: int,
)
    requires
        sp == secret_pts(m),
        p1 == pts(m.contents.config, 15),
        p2 == pts(m.contents.skills, 15),
        p3 == pts(m.contents.memory, 10),
        p4 == pts(m.integrity.checksum is Some, 10),
        p5 == pts(signed, 10),
        p6 == pts(m.platform is Some, 5),
        p7 == pts(m.origin is Some, 5),
        p8 == pts(m.runtime.required@.len() > 0, 5),
        p9 == pts(
            m.packages.extensions@.len() + m.packages.skills@.len() + m.packages.themes@.len() > 0,
            5,
        ),
        p10 == pts(clean, 5),
    ensures
        p1 + p2 + p3 + sp + p4 + p5 + p6 + p7 + p8 + p9 + p10 == repro_points(m, signed, clean),
{
}

fn repro_warnings_exec(m: &Manifest, signed: bool) -> (r: Vec<String>)
    ensures
        r@.map_values(|s: String| s@) == repro_warnings(m, signed),
{
    let mut warnings: Vec<String> = Vec::new();
    assert(warnings@.map_values(|s: String| s@) =~= Seq::<Seq<char>>::empty());
    push_unless(&mut warnings, m.contents.config, "no config packed — bundle may not be self-contained");
    assert(warnings@.map_values(|s: String| s@) =~= unless(m.contents.config, "no config packed — bundle may not be self-contained"@));
    push_unless(&mut warnings, m.contents.skills, "no skills packed — agent capabilities may differ");
    push_unless(&mut warnings, m.contents.memory, "no memory packed — session history lost");
    if m.contents.secrets {
        push_unless(&mut warnings, m.security.secrets_encrypted, "secrets present but not encrypted");
    } else {
        push_unless(&mut warnings, false, "no secrets packed — API keys may be missing");
    }
    push_unless(&mut warnings, m.integrity.checksum.is_some(), "no checksum — bundle integrity unverified");
    push_unless(&mut warnings, signed, "unsigned bundle — authenticity unverified");
    push_unless(
        &mut warnings,
        m.platform.is_some(),
        "no platform info — cross-platform compatibility unknown",
    );
    push_unless(&mut warnings, m.runtime.required.len() > 0, "no runtime requirements specified");
    warnings
}

/// The reproducibility score (0 to 100) of a bundle and its warnings;
/// `signed` says whether the bundle has a `manifest.sig`.
pub fn compute_reproducibility(m: &Manifest, signed: bool) -> (r: (u32, Vec<String>))
    ensures
        r.0 == repro_score(m, signed),
        r.1@.map_values(|s: String| s@) == repro_warnings(m, signed),
{
    let warnings = repro_warnings_exec(m, signed);
    let clean = warnings.len() == 0;
    assert(clean == (repro_warnings(m, signed).len() == 0)) by {
        assert(warnings@.map_values(|s: String| s@).len() == warnings@.len());
    }
    let score = repro_score_exec(m, signed, clean);
    proof {
        lemma_points_at_most_100(m, signed, clean);
    }
    (score, warnings)
}

proof fn lemma_points_at_most_100(m: &Manifest, signed: bool, clean: bool)
    ensures
        0 <= repro_points(m, signed, clean) <= 100,
{
    reveal(pts);
}

/// The score is a percentage: between 0 and 100.
pub proof fn lemma_score_in_range(m: &Manifest, signed: bool)
    ensures
        0 <= repro_score(m, signed) <= 100,
{
    reveal(pts);
}

/// A fully packed, signed bundle with provenance, platform, runtime
/// requirements and packages has no warnings and scores 100.
pub proof fn lemma_complete_bundle_scores_high(m: &Manifest)
    requires
        m.contents.config,
        m.contents.skills,
        m.contents.memory,
        m.contents.secrets,
        m.security.secrets_encrypted,
        m.integrity.checksum is Some,
        m.platform is Some,
        m.origin is Some,
        m.runtime.required@.len() > 0,
        m.packages.extensions@.len() > 0,
    ensures
        repro_score(m, true) == 100,
        repro_warnings(m, true).len() == 0,
{
    reveal(unless);
    reveal(pts);
}

proof fn lemma_concat_mem(x: Seq<Seq<char>>, y: Seq<Seq<char>>, t: Seq<char>)
    ensures
        (x + y).contains(t) <==> (x.contains(t) || y.contains(t)),
{
    if (x + y).contains(t) {
        let k = choose|k: int| 0 <= k < (x + y).len() && (x + y)[k] == t;
        if k < x.len() {
            assert(x[k] == t);
        } else {
            assert(y[k - x.len()] == t);
        }
    }
    if x.contains(t) {
        let k = choose|k: int| 0 <= k < x.len() && x[k] == t;
        assert((x + y)[k] == t);
    }
    if y.contains(t) {
        let k = choose|k: int| 0 <= k < y.len() && y[k] == t;
        assert((x + y)[k + x.len()] == t);
    }
}

proof fn lemma_unless_mem(ok: bool, text: Seq<char>, t: Seq<char>)
    ensures
        unless(ok, text).contains(t) <==> (!ok && text == t),
{
    reveal(unless);
    if !ok {
        assert(seq![text][0] == text);
    }
}

proof fn lemma_first_char_differs(a: Seq<char>, b: Seq<char>)
    requires
        a.len() > 0,
        b.len() > 0,
        a[0] != b[0],
    ensures
        a != b,
{
}

/// Plaintext secrets are always reported: a bundle that holds secrets
/// without encrypting them warns "secrets present but not encrypted", so its
/// report is never clean; the warning comes from nothing else.
pub proof fn lemma_plaintext_secrets_warned(m: &Manifest, signed: bool)
    ensures
        repro_warnings(m, signed).contains("secrets present but not encrypted"@) <==> (
        m.contents.secrets && !m.security.secrets_encrypted),
        m.contents.secrets && !m.security.secrets_encrypted ==> repro_warnings(m, signed).len()
            > 0,
{
    let t = "secrets present but not encrypted"@;
    let l1 = "no config packed — bundle may not be self-contained"@;
    let l2 = "no skills packed — agent capabilities may differ"@;
    let l3 = "no memory packed — session history lost"@;
    let l4 = "no secrets packed — API keys may be missing"@;
    let l5 = "no checksum — bundle integrity unverified"@;
    let l6 = "unsigned bundle — authenticity unverified"@;
    let l7 = "no platform info — cross-platform compatibility unknown"@;
    let l8 = "no runtime requirements specified"@;
    reveal_strlit("secrets present but not encrypted");
    reveal_strlit("no config packed — bundle may not be self-contained");
    lemma_first_char_differs(l1, t);
    reveal_strlit("no skills packed — agent capabilities may differ");
    lemma_first_char_differs(l2, t);
    reveal_strlit("no memory packed — session history lost");
    lemma_first_char_differs(l3, t);
    reveal_strlit("no secrets packed — API keys may be missing");
    lemma_first_char_differs(l4, t);
    reveal_strlit("no checksum — bundle integrity unverified");
    lemma_first_char_differs(l5, t);
    reveal_strlit("unsigned bundle — authenticity unverified");
    lemma_first_char_differs(l6, t);
    reveal_strlit("no platform info — cross-platform compatibility unknown");
    lemma_first_char_differs(l7, t);
    reveal_strlit("no runtime requirements specified");
    lemma_first_char_differs(l8, t);
    let a = unless(m.contents.config, l1);
    let b = unless(m.contents.skills, l2);
    let c = unless(m.contents.memory, l3);
    let d = if m.contents.secrets {
        unless(m.security.secrets_encrypted, t)
    } else {
        unless(false, l4)
    };
    let e = unless(m.integrity.checksum is Some, l5);
    let f = unless(signed, l6);
    let g = unless(m.platform is Some, l7);
    let h = unless(m.runtime.required@.len() > 0, l8);
    lemma_unless_mem(m.contents.config, l1, t);
    lemma_unless_mem(m.contents.skills, l2, t);
    lemma_unless_mem(m.contents.memory, l3, t);
    lemma_unless_mem(m.security.secrets_encrypted, t, t);
    lemma_unless_mem(false, l4, t);
    lemma_unless_mem(m.integrity.checksum is Some, l5, t);
    lemma_unless_mem(signed, l6, t);
    lemma_unless_mem(m.platform is Some, l7, t);
    lemma_unless_mem(m.runtime.required@.len() > 0, l8, t);
    lemma_concat_mem(a, b, t);
    lemma_concat_mem(a + b, c, t);
    lemma_concat_mem(a + b + c, d, t);
    lemma_concat_mem(a + b + c + d, e, t);
    lemma_concat_mem(a + b + c + d + e, f, t);
    lemma_concat_mem(a + b + c + d + e + f, g, t);
    lemma_concat_mem(a + b + c + d + e + f + g, h, t);
    assert(repro_warnings(m, signed) == a + b + c + d + e + f + g + h);
}

/// One warning for each missing element: config, skills, memory, secrets
/// (or their encryption), checksum, signature, platform and runtime
/// requirements. So the report is clean exactly when a bundle has all of
/// them.
pub proof fn lemma_warning_count(m: &Manifest, signed: bool)
    ensures
        repro_warnings(m, signed).len() == (if m.contents.config {
            0int
        } else {
            1int
        }) + (if m.contents.skills {
            0int
        } else {
            1int
        }) + (if m.contents.memory {
            0int
        } else {
            1int
        }) + (if m.contents.secrets && m.security.secrets_encrypted {
            0int
        } else {
            1int
        }) + (if m.integrity.checksum is Some {
            0int
        } else {
            1int
        }) + (if signed {
            0int
        } else {
            1int
        }) + (if m.platform is Some {
            0int
        } else {
            1int
        }) + (if m.runtime.required@.len() > 0 {
            0int
        } else {
            1int
        }),
        (repro_warnings(m, signed).len() == 0) <==> (m.contents.config && m.contents.skills
            && m.contents.memory && m.contents.secrets && m.security.secrets_encrypted
            && m.integrity.checksum is Some && signed && m.platform is Some
            && m.runtime.required@.len() > 0),
{
    reveal(unless);
}

} // verus!
