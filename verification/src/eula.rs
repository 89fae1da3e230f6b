//! The EULA-acceptance gate: the decisions behind the one-time agreement
//! check that guards a server launch.
//!
//! The persisted fact is a text file holding a line that, after trimming
//! surrounding whitespace, is exactly `eula=true`. The check first scans the
//! file, then consults an environment override, and otherwise prompts. This
//! module decides each of those steps from plain bytes; the caller reads the
//! file, the environment and the terminal, and persists the acceptance.

use vstd::prelude::*;

verus! {

/// The exact acceptance line, as bytes: `eula=true`.
pub open spec fn accepted_line() -> Seq<u8> {
    seq![101u8, 117u8, 108u8, 97u8, 61u8, 116u8, 114u8, 117u8, 101u8]
}

/// ASCII whitespace: the bytes stripped from the ends of a line before it is
/// compared.
pub open spec fn is_space(b: u8) -> bool {
    b == 32u8 || b == 9u8 || b == 10u8 || b == 11u8 || b == 12u8 || b == 13u8
}

/// `s` with its leading whitespace removed.
pub open spec fn trim_front(s: Seq<u8>) -> Seq<u8>
    decreases s.len(),
{
    if s.len() > 0 && is_space(s[0]) {
        trim_front(s.subrange(1, s.len() as int))
    } else {
        s
    }
}

/// `s` with its trailing whitespace removed.
pub open spec fn trim_back(s: Seq<u8>) -> Seq<u8>
    decreases s.len(),
{
    if s.len() > 0 && is_space(s[s.len() - 1]) {
        trim_back(s.subrange(0, s.len() - 1))
    } else {
        s
    }
}

/// `s` with whitespace removed from both ends.
pub open spec fn trim(s: Seq<u8>) -> Seq<u8> {
    trim_back(trim_front(s))
}

/// Trimming the front keeps exactly the suffix from the first non-space byte.
proof fn lemma_trim_front_exact(s: Seq<u8>, lo: int)
    requires
        0 <= lo <= s.len(),
        forall|k: int| 0 <= k < lo ==> is_space(s[k]),
        lo == s.len() || !is_space(s[lo]),
    ensures
        trim_front(s) == s.subrange(lo, s.len() as int),
    decreases lo,
{
    if lo == 0 {
        assert(s.subrange(0, s.len() as int) =~= s);
    } else {
        let t = s.subrange(1, s.len() as int);
        assert(forall|k: int| 0 <= k < lo - 1 ==> is_space(t[k]));
        lemma_trim_front_exact(t, lo - 1);
        assert(t.subrange(lo - 1, t.len() as int) =~= s.subrange(lo, s.len() as int));
    }
}

/// Trimming the back keeps exactly the prefix up to the last non-space byte.
proof fn lemma_trim_back_exact(s: Seq<u8>, hi: int)
    requires
        0 <= hi <= s.len(),
        forall|k: int| hi <= k < s.len() ==> is_space(s[k]),
        hi == 0 || !is_space(s[hi - 1]),
    ensures
        trim_back(s) == s.subrange(0, hi),
    decreases s.len() - hi,
{
    if hi == s.len() {
        assert(s.subrange(0, s.len() as int) =~= s);
    } else {
        let t = s.subrange(0, s.len() - 1);
        assert(forall|k: int| hi <= k < t.len() ==> is_space(t[k]));
        lemma_trim_back_exact(t, hi);
        assert(t.subrange(0, hi) =~= s.subrange(0, hi));
    }
}

/// Whether `b` counts as whitespace for trimming.
fn is_space_byte(b: u8) -> (r: bool)
    ensures
        r == is_space(b),
{
    b == 32u8 || b == 9u8 || b == 10u8 || b == 11u8 || b == 12u8 || b == 13u8
}

/// Locate the trimmed part of `bytes[start..end]`: returns `(lo, hi)` such
/// that trimming that segment keeps exactly `bytes[lo..hi]`.
fn trim_bounds(bytes: &Vec<u8>, start: usize, end: usize) -> (r: (usize, usize))
    requires
        start <= end <= bytes@.len(),
    ensures
        start <= r.0 <= r.1 <= end,
        trim(bytes@.subrange(start as int, end as int)) == bytes@.subrange(
            r.0 as int,
            r.1 as int,
        ),
{
    let ghost seg = bytes@.subrange(start as int, end as int);
    let mut lo = start;
    while lo < end && is_space_byte(bytes[lo])
        invariant
            start <= lo <= end <= bytes@.len(),
            forall|k: int| start <= k < lo ==> is_space(bytes@[k]),
        decreases end - lo,
    {
        lo = lo + 1;
    }
    let mut hi = end;
    while hi > lo && is_space_byte(bytes[hi - 1])
        invariant
            lo <= hi <= end <= bytes@.len(),
            forall|k: int| hi <= k < end ==> is_space(bytes@[k]),
        decreases hi,
    {
        hi = hi - 1;
    }
    proof {
        assert(forall|k: int| 0 <= k < lo - start ==> is_space(seg[k]));
        assert(lo - start == seg.len() || !is_space(seg[lo - start]));
        lemma_trim_front_exact(seg, lo - start);
        let tf = seg.subrange(lo - start, seg.len() as int);
        assert(tf =~= bytes@.subrange(lo as int, end as int));
        assert(forall|k: int| hi - lo <= k < tf.len() ==> is_space(tf[k]));
        assert(hi - lo == 0 || !is_space(tf[hi - lo - 1]));
        lemma_trim_back_exact(tf, hi - lo);
        assert(tf.subrange(0, hi - lo) =~= bytes@.subrange(lo as int, hi as int));
    }
    (lo, hi)
}

/// Whether `bytes[lo..hi]` is byte-for-byte equal to `pat`.
fn range_matches(bytes: &Vec<u8>, lo: usize, hi: usize, pat: &Vec<u8>) -> (r: bool)
    requires
        lo <= hi <= bytes@.len(),
    ensures
        r == (bytes@.subrange(lo as int, hi as int) == pat@),
{
    let ghost seg = bytes@.subrange(lo as int, hi as int);
    if hi - lo != pat.len() {
        return false;
    }
    let mut i: usize = 0;
    while i < pat.len()
        invariant
            lo <= hi <= bytes@.len(),
            hi - lo == pat@.len(),
            i <= pat@.len(),
            seg == bytes@.subrange(lo as int, hi as int),
            forall|k: int| 0 <= k < i ==> seg[k] == pat@[k],
        decreases pat@.len() - i,
    {
        if bytes[lo + i] != pat[i] {
            proof {
                assert(seg[i as int] != pat@[i as int]);
            }
            return false;
        }
        i = i + 1;
    }
    proof {
        assert(seg =~= pat@);
    }
    true
}

/// `bytes[i..j]` is a full line of `bytes`: it starts at the beginning of the
/// content or right after a newline, ends at the end of the content or at a
/// newline, and contains no newline itself.
pub open spec fn line_region(s: Seq<u8>, i: int, j: int) -> bool {
    &&& 0 <= i <= j <= s.len()
    &&& (i == 0 || s[i - 1] == 10u8)
    &&& (j == s.len() || s[j] == 10u8)
    &&& (forall|k: int| i <= k < j ==> s[k] != 10u8)
}

/// The content records acceptance: some line of it, after trimming
/// surrounding whitespace, is exactly `eula=true`. No other line content
/// matters.
pub open spec fn accepts(s: Seq<u8>) -> bool {
    exists|i: int, j: int| line_region(s, i, j) && trim(s.subrange(i, j)) == accepted_line()
}

/// Two full lines that end at the same place start at the same place.
proof fn lemma_line_region_start_unique(s: Seq<u8>, i1: int, i2: int, j: int)
    requires
        line_region(s, i1, j),
        line_region(s, i2, j),
    ensures
        i1 == i2,
{
    if i1 < i2 {
        assert(s[i2 - 1] == 10u8);
        assert(i1 <= i2 - 1 < j);
        assert(false);
    }
    if i2 < i1 {
        assert(s[i1 - 1] == 10u8);
        assert(i2 <= i1 - 1 < j);
        assert(false);
    }
}

/// Whether the line `bytes[start..end]`, after trimming, is exactly the
/// acceptance line.
fn segment_accepts(bytes: &Vec<u8>, start: usize, end: usize) -> (r: bool)
    requires
        start <= end <= bytes@.len(),
    ensures
        r == (trim(bytes@.subrange(start as int, end as int)) == accepted_line()),
{
    let (lo, hi) = trim_bounds(bytes, start, end);
    let pat = accepted_content();
    range_matches(bytes, lo, hi, &pat)
}

/// Scan the EULA file's content for a line that, trimmed, is exactly
/// `eula=true`.
pub fn content_accepts(bytes: &Vec<u8>) -> (r: bool)
    ensures
        r == accepts(bytes@),
{
    let n = bytes.len();
    let mut start: usize = 0;
    let mut pos: usize = 0;
    while pos < n
        invariant
            start <= pos <= n == bytes@.len(),
            start == 0 || bytes@[start - 1] == 10u8,
            forall|k: int| start <= k < pos ==> bytes@[k] != 10u8,
            forall|i: int, j: int|
                line_region(bytes@, i, j) && j < pos ==> trim(bytes@.subrange(i, j))
                    != accepted_line(),
        decreases n - pos,
    {
        if bytes[pos] == 10u8 {
            if segment_accepts(bytes, start, pos) {
                proof {
                    assert(line_region(bytes@, start as int, pos as int));
                }
                return true;
            }
            proof {
                assert forall|i: int, j: int|
                    line_region(bytes@, i, j) && j < pos + 1 implies trim(
                    bytes@.subrange(i, j),
                ) != accepted_line() by {
                    if j == pos {
                        assert(line_region(bytes@, start as int, pos as int));
                        lemma_line_region_start_unique(bytes@, i, start as int, j);
                    }
                }
            }
            start = pos + 1;
        } else {
            proof {
                assert forall|i: int, j: int|
                    line_region(bytes@, i, j) && j < pos + 1 implies trim(
                    bytes@.subrange(i, j),
                ) != accepted_line() by {
                    if j == pos {
                        assert(bytes@[pos as int] != 10u8);
                        assert(false);
                    }
                }
            }
        }
        pos = pos + 1;
    }
    if segment_accepts(bytes, start, n) {
        proof {
            assert(line_region(bytes@, start as int, n as int));
        }
        return true;
    }
    proof {
        assert forall|i: int, j: int| line_region(bytes@, i, j) implies trim(
            bytes@.subrange(i, j),
        ) != accepted_line() by {
            if j == n {
                assert(line_region(bytes@, start as int, n as int));
                lemma_line_region_start_unique(bytes@, i, start as int, j);
            }
        }
    }
    false
}

/// The exact bytes that record acceptance, both recognized in the file and
/// persisted on agreement: `eula=true`, with no trailing newline.
pub fn accepted_content() -> (r: Vec<u8>)
    ensures
        r@ == accepted_line(),
{
    let mut v: Vec<u8> = Vec::new();
    v.push(101u8);  // e
    v.push(117u8);  // u
    v.push(108u8);  // l
    v.push(97u8);  // a
    v.push(61u8);  // =
    v.push(116u8);  // t
    v.push(114u8);  // r
    v.push(117u8);  // u
    v.push(101u8);  // e
    proof {
        assert(v@ =~= accepted_line());
    }
    v
}

/// The environment override's value auto-accepts: it is exactly `true` or
/// exactly `1` (case-sensitive, no trimming).
pub open spec fn auto_agree_value(v: Seq<u8>) -> bool {
    v == seq![116u8, 114u8, 117u8, 101u8] || v == seq![49u8]
}

/// The override variable, `None` when unset, auto-accepts.
pub open spec fn env_auto_agrees(env: Option<Seq<u8>>) -> bool {
    match env {
        Some(v) => auto_agree_value(v),
        None => false,
    }
}

/// The bytes of an `Option<Vec<u8>>`, as an optional sequence.
pub open spec fn opt_bytes(v: Option<Vec<u8>>) -> Option<Seq<u8>> {
    match v {
        Some(b) => Some(b@),
        None => None,
    }
}

/// Whether the override variable's value, `None` when the variable is unset,
/// asks for automatic acceptance.
pub fn env_auto_agree(env: &Option<Vec<u8>>) -> (r: bool)
    ensures
        r == env_auto_agrees(opt_bytes(*env)),
{
    match env {
        None => false,
        Some(v) => {
            if v.len() == 4 {
                let r = v[0] == 116u8 && v[1] == 114u8 && v[2] == 117u8 && v[3] == 101u8;  // true
                proof {
                    if r {
                        assert(v@ =~= seq![116u8, 114u8, 117u8, 101u8]);
                    } else {
                        assert(v@ != seq![116u8, 114u8, 117u8, 101u8]);
                        assert(v@.len() != 1);
                    }
                }
                r
            } else if v.len() == 1 {
                let r = v[0] == 49u8;  // 1
                proof {
                    if r {
                        assert(v@ =~= seq![49u8]);
                    } else {
                        assert(v@ != seq![49u8]);
                        assert(v@.len() != 4);
                    }
                }
                r
            } else {
                proof {
                    assert(v@.len() != 4 && v@.len() != 1);
                }
                false
            }
        },
    }
}

/// The prompt's answer agrees: trimmed, it is exactly `y` or `Y`. Anything
/// else declines.
pub open spec fn input_agrees_spec(s: Seq<u8>) -> bool {
    trim(s) == seq![121u8] || trim(s) == seq![89u8]
}

/// Whether a line read from the prompt agrees to the EULA.
pub fn input_agrees(input: &Vec<u8>) -> (r: bool)
    ensures
        r == input_agrees_spec(input@),
{
    let (lo, hi) = trim_bounds(input, 0, input.len());
    proof {
        assert(input@.subrange(0, input@.len() as int) =~= input@);
    }
    if hi - lo == 1 {
        let b = input[lo];
        let r = b == 121u8 || b == 89u8;  // y or Y
        proof {
            let t = trim(input@);
            assert(t.len() == 1 && t[0] == input@[lo as int]);
            if b == 121u8 {
                assert(t =~= seq![121u8]);
            } else if b == 89u8 {
                assert(t =~= seq![89u8]);
            } else {
                assert(t != seq![121u8] && t != seq![89u8]);
            }
        }
        r
    } else {
        proof {
            assert(trim(input@).len() != 1);
        }
        false
    }
}

/// What the agreement check must do next, decided from the persisted file
/// and the environment override. Whoever runs the check performs the
/// printing, prompting and writing that the chosen action calls for.
#[derive(Clone, Copy, Debug, PartialEq, Eq, Structural)]
pub enum GateAction {
    /// The file already records acceptance: succeed at once, with no notice,
    /// no prompt and no write.
    AlreadyAccepted,
    /// The override auto-accepts: print the automatic-agreement notice and
    /// the EULA link, then persist the acceptance bytes without prompting.
    AutoAccept,
    /// Print the explanatory notices and the EULA link, then prompt. Persist
    /// the acceptance bytes only on an agreeing answer; on any other answer
    /// fail with the EULA-not-agreed error and write nothing.
    Prompt,
}

/// The agreement decision: an accepting file wins, then the override, and
/// otherwise the user is prompted.
pub open spec fn spec_gate_action(content: Option<Seq<u8>>, env: Option<Seq<u8>>) -> GateAction {
    if content is Some && accepts(content->Some_0) {
        GateAction::AlreadyAccepted
    } else if env_auto_agrees(env) {
        GateAction::AutoAccept
    } else {
        GateAction::Prompt
    }
}

/// Decide the agreement check's next action. `content` is the EULA file's bytes, `None`
/// when the file does not exist; `env` is the override variable's value,
/// `None` when it is unset.
pub fn gate_action(content: &Option<Vec<u8>>, env: &Option<Vec<u8>>) -> (r: GateAction)
    ensures
        r == spec_gate_action(opt_bytes(*content), opt_bytes(*env)),
{
    let accepted = match content {
        Some(c) => content_accepts(c),
        None => false,
    };
    if accepted {
        GateAction::AlreadyAccepted
    } else if env_auto_agree(env) {
        GateAction::AutoAccept
    } else {
        GateAction::Prompt
    }
}

/// Idempotence: the persisted acceptance content itself passes the file
/// scan, so once the agreement check has written it (or found it), every
/// later call decides `AlreadyAccepted` — success with no further prompt or
/// write — whatever the override holds.
pub proof fn lemma_gate_idempotent(env: Option<Seq<u8>>)
    ensures
        accepts(accepted_line()),
        spec_gate_action(Some(accepted_line()), env) == GateAction::AlreadyAccepted,
{
    let s = accepted_line();
    assert(line_region(s, 0, s.len() as int));
    lemma_trim_front_exact(s, 0);
    assert(s.subrange(0, s.len() as int) =~= s);
    lemma_trim_back_exact(s, s.len() as int);
    assert(trim(s.subrange(0, s.len() as int)) == accepted_line());
}

/// The environment variable consulted for the override.
pub fn env_var_name() -> (r: &'static str)
    ensures
        r@ == "MCMOD_EULA_AUTO_AGREE"@,
{
    "MCMOD_EULA_AUTO_AGREE"
}

/// The directory under the build-tool root that holds the EULA file.
pub fn eula_dir_name() -> (r: &'static str)
    ensures
        r@ == "run"@,
{
    "run"
}

/// The EULA file's name inside that directory.
pub fn eula_file_name() -> (r: &'static str)
    ensures
        r@ == "eula.txt"@,
{
    "eula.txt"
}

/// Notice printed when the override accepts automatically.
pub fn auto_agree_notice() -> (r: &'static str)
    ensures
        r@ == "Automatically agreeing to EULA to run the server (because MCMOD_EULA_AUTO_AGREE is set)"@,
{
    "Automatically agreeing to EULA to run the server (because MCMOD_EULA_AUTO_AGREE is set)"
}

/// Reminder printed before any acceptance, automatic or prompted.
pub fn eula_link_notice() -> (r: &'static str)
    ensures
        r@ == "Please read the EULA at https://account.mojang.com/documents/minecraft_eula"@,
{
    "Please read the EULA at https://account.mojang.com/documents/minecraft_eula"
}

/// Explanation printed before the interactive prompt.
pub fn agree_required_notice() -> (r: &'static str)
    ensures
        r@ == "Agreeing to the EULA is required to launch the server"@,
{
    "Agreeing to the EULA is required to launch the server"
}

/// Hint printed before the interactive prompt.
pub fn auto_agree_hint() -> (r: &'static str)
    ensures
        r@ == "You can set MCMOD_EULA_AUTO_AGREE=true to automatically agree to the EULA"@,
{
    "You can set MCMOD_EULA_AUTO_AGREE=true to automatically agree to the EULA"
}

/// The interactive prompt, printed without a trailing newline.
pub fn prompt_text() -> (r: &'static str)
    ensures
        r@ == "Do you want to agree to the EULA? (y/N) "@,
{
    "Do you want to agree to the EULA? (y/N) "
}

/// The message of the error raised when the prompt's answer declines.
pub fn declined_message() -> (r: &'static str)
    ensures
        r@ == "EULA not agreed"@,
{
    "EULA not agreed"
}

} // verus!
