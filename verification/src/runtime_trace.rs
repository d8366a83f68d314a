//! Names for the runtime trace: the endpoint a call went to, and the entry point a script that
//! still reaches the old runtime calls. Only names are written, never values: every name is a
//! short code identifier taken out of the text, or a constant.

use vstd::prelude::*;

use crate::text::{
    alnum_run, chars_of, end_before, end_of_alnum, find_first, first_occurrence, len_before,
    occurs_at, same_text,
};

verus! {

broadcast use vstd::string::group_string_axioms;

/// A character a code name may hold: an ASCII letter or digit, `.`, `-` or `_`.
pub open spec fn name_char(c: char) -> bool {
    ('a' <= c && c <= 'z') || ('A' <= c && c <= 'Z') || ('0' <= c && c <= '9') || c == '.' || c
        == '-' || c == '_'
}

/// A code name: one to eighty of [`name_char`].
pub open spec fn is_identifier(s: Seq<char>) -> bool {
    1 <= s.len() <= 80 && forall|i: int| 0 <= i < s.len() ==> name_char(#[trigger] s[i])
}

/// `text` when it is a code name.
pub open spec fn identifier_of(s: Seq<char>) -> Option<Seq<char>> {
    if is_identifier(s) {
        Some(s)
    } else {
        None
    }
}

/// The view of an optional string.
pub open spec fn opt_view(s: Option<String>) -> Option<Seq<char>> {
    match s {
        Some(t) => Some(t@),
        None => None,
    }
}

/// A code name (letters, digits, `.`, `-`, `_`, at most 80 characters), or `None`.
pub fn identifier(text: &str) -> (name: Option<String>)
    ensures
        opt_view(name) == identifier_of(text@),
{
    let chars = chars_of(text);
    if chars.len() == 0 || chars.len() > 80 {
        return None;
    }
    let mut i: usize = 0;
    while i < chars.len()
        invariant
            0 <= i <= chars@.len(),
            chars@ == text@,
            forall|j: int| 0 <= j < i ==> name_char(#[trigger] chars@[j]),
        decreases chars@.len() - i,
    {
        let c = chars[i];
        if !(('a' <= c && c <= 'z') || ('A' <= c && c <= 'Z') || ('0' <= c && c <= '9') || c == '.'
            || c == '-' || c == '_') {
            return None;
        }
        i = i + 1;
    }
    Some(String::from_str(text))
}

/// The leading run of `c` in `s`.
pub open spec fn lead_run(s: Seq<char>, c: char) -> nat
    decreases s.len(),
{
    if s.len() > 0 && s[0] == c {
        1 + lead_run(s.drop_first(), c)
    } else {
        0
    }
}

/// The trailing run of `c` in `s`.
pub open spec fn trail_run(s: Seq<char>, c: char) -> nat
    decreases s.len(),
{
    if s.len() > 0 && s.last() == c {
        1 + trail_run(s.drop_last(), c)
    } else {
        0
    }
}

/// `s` with `pat` taken off its front as often as it is there.
pub open spec fn strip_all(s: Seq<char>, pat: Seq<char>) -> Seq<char>
    decreases s.len(),
{
    if pat.len() > 0 && occurs_at(s, pat, 0) {
        strip_all(s.skip(pat.len() as int), pat)
    } else {
        s
    }
}

/// `s` with every leading and trailing `c` taken off.
pub open spec fn trim_char(s: Seq<char>, c: char) -> Seq<char> {
    let lead = lead_run(s, c);
    if lead >= s.len() {
        Seq::empty()
    } else {
        s.subrange(lead as int, s.len() - trail_run(s, c))
    }
}

/// The `/api/` prefix of an endpoint path.
pub open spec fn api_prefix() -> Seq<char> {
    seq!['/', 'a', 'p', 'i', '/']
}

/// The name an endpoint is written under: the path before any query, without its `/api/`
/// prefixes and its outer slashes, with the inner slashes written as dots.
pub open spec fn endpoint_name_of(path: Seq<char>) -> Seq<char> {
    let before_query = path.take(len_before(path, '?') as int);
    trim_char(strip_all(before_query, api_prefix()), '/').map_values(
        |c: char|
            if c == '/' {
                '.'
            } else {
                c
            },
    )
}

} // verus!

verus! {

/// The characters `from..to` of `s`, each `/` written as `.`.
fn dotted(s: &str, from: usize, to: usize) -> (out: String)
    requires
        from <= to <= s@.len(),
    ensures
        out@ == s@.subrange(from as int, to as int).map_values(
            |c: char|
                if c == '/' {
                    '.'
                } else {
                    c
                },
        ),
{
    let chars = chars_of(s);
    let mut out = String::new();
    let mut k: usize = from;
    while k < to
        invariant
            from <= k <= to,
            to <= s@.len(),
            chars@ == s@,
            out@ == s@.subrange(from as int, k as int).map_values(
                |c: char|
                    if c == '/' {
                        '.'
                    } else {
                        c
                    },
            ),
        decreases to - k,
    {
        let ghost before = out@;
        if chars[k] == '/' {
            out.append(".");
            proof {
                reveal_strlit(".");
            }
        } else {
            out.append(s.substring_char(k, k + 1));
        }
        proof {
            assert(out@ =~= s@.subrange(from as int, k as int + 1).map_values(
                |c: char|
                    if c == '/' {
                        '.'
                    } else {
                        c
                    },
            ));
        }
        k = k + 1;
    }
    out
}

/// `/api/readSidebarHud` is written `readSidebarHud`, `/api/a/b` is written `a.b`.
pub fn endpoint_name(path: &str) -> (name: String)
    ensures
        name@ == endpoint_name_of(path@),
{
    let chars = chars_of(path);
    let q = end_before(&chars, 0, '?');
    let ghost bq = path@.take(q as int);
    proof {
        assert(path@.skip(0) =~= path@);
    }
    let api = chars_of("/api/");
    proof {
        reveal_strlit("/api/");
        assert(api@ =~= api_prefix());
    }
    let mut pos: usize = 0;
    proof {
        assert(bq.skip(0) =~= bq);
    }
    while q >= 5 && pos <= q - 5 && crate::text::matches_at(&chars, &api, pos)
        invariant
            pos <= q,
            q <= chars@.len(),
            chars@ == path@,
            api@ == api_prefix(),
            bq == path@.take(q as int),
            strip_all(bq, api_prefix()) == strip_all(bq.skip(pos as int), api_prefix()),
        decreases q - pos,
    {
        proof {
            let t = bq.skip(pos as int);
            assert(t.subrange(0, 5) =~= chars@.subrange(pos as int, pos + 5));
            assert(occurs_at(t, api_prefix(), 0));
            assert(t.skip(5) =~= bq.skip(pos + 5));
        }
        pos = pos + 5;
    }
    proof {
        let t = bq.skip(pos as int);
        if t.len() >= 5 {
            assert(t.subrange(0, 5) =~= chars@.subrange(pos as int, pos + 5));
        }
        assert(!occurs_at(t, api_prefix(), 0));
    }
    let ghost s = bq.skip(pos as int);
    proof {
        assert(s =~= path@.subrange(pos as int, q as int));
    }
    let mut a: usize = pos;
    while a < q && chars[a] == '/'
        invariant
            pos <= a <= q,
            q <= chars@.len(),
            chars@ == path@,
            s == path@.subrange(pos as int, q as int),
            lead_run(s, '/') == (a - pos) + lead_run(path@.subrange(a as int, q as int), '/'),
        decreases q - a,
    {
        proof {
            assert(path@.subrange(a as int, q as int).drop_first() =~= path@.subrange(a + 1, q as int));
        }
        a = a + 1;
    }
    proof {
        assert(s =~= path@.subrange(pos as int, q as int));
    }
    if a >= q {
        proof {
            assert(path@.subrange(a as int, q as int).len() == 0);
            assert(lead_run(s, '/') >= s.len());
            assert(endpoint_name_of(path@) =~= Seq::<char>::empty());
        }
        return String::new();
    }
    proof {
        assert(path@.subrange(a as int, q as int)[0] == chars@[a as int]);
        assert(lead_run(s, '/') == a - pos);
    }
    let mut b: usize = q;
    while b > a && chars[b - 1] == '/'
        invariant
            a < q,
            pos <= a,
            a < b <= q,
            q <= chars@.len(),
            chars@ == path@,
            chars@[a as int] != '/',
            s == path@.subrange(pos as int, q as int),
            trail_run(s, '/') == (q - b) + trail_run(path@.subrange(pos as int, b as int), '/'),
        decreases b - a,
    {
        proof {
            assert(path@.subrange(pos as int, b as int).drop_last() =~= path@.subrange(pos as int, b - 1));
        }
        b = b - 1;
    }
    proof {
        assert(b > a);
        assert(path@.subrange(pos as int, b as int).last() == chars@[b - 1]);
        assert(trail_run(s, '/') == q - b);
        assert(s.subrange((a - pos) as int, s.len() - (q - b)) =~= path@.subrange(a as int, b as int));
    }
    dotted(path, a, b)
}

} // verus!

verus! {

/// `.on`, which a bridge callback's name follows.
pub open spec fn dot_on() -> Seq<char> {
    seq!['.', 'o', 'n']
}

/// A `.on<Upper>` member starts at `i` of `s`.
pub open spec fn callback_at(s: Seq<char>, i: int) -> bool {
    occurs_at(s, dot_on(), i) && i + 3 < s.len() && 'A' <= s[i + 3] && s[i + 3] <= 'Z'
}

/// `i` is the first `.on<Upper>` member of `s`.
pub open spec fn is_first_callback(s: Seq<char>, i: int) -> bool {
    callback_at(s, i) && forall|j: int| 0 <= j < i ==> !callback_at(s, j)
}

/// The name of the first `.on<Upper>...` member of `s`: `on` and the letters and digits after it,
/// when that is a code name.
pub open spec fn first_callback_of(s: Seq<char>) -> Option<Seq<char>> {
    if exists|i: int| is_first_callback(s, i) {
        let i = choose|i: int| is_first_callback(s, i);
        identifier_of(s.subrange(i + 1, i + 1 + alnum_run(s.skip(i + 1))))
    } else {
        None
    }
}

/// The first `.on<Upper>...` member in the source, when its name is a code name.
pub fn first_callback(source: &str) -> (name: Option<String>)
    ensures
        opt_view(name) == first_callback_of(source@),
{
    let chars = chars_of(source);
    let pat = chars_of(".on");
    proof {
        reveal_strlit(".on");
        assert(pat@ =~= dot_on());
    }
    let total = chars.len();
    let mut start: usize = 0;
    loop
        invariant
            start <= chars@.len(),
            total == chars@.len(),
            chars@ == source@,
            pat@ == dot_on(),
            forall|j: int| 0 <= j < start ==> !callback_at(source@, j),
        decreases chars@.len() - start,
    {
        match find_first(&chars, &pat, start) {
            None => {
                proof {
                    assert forall|i: int| !is_first_callback(source@, i) by {
                        if i >= start && callback_at(source@, i) {
                            assert(crate::text::is_first_occurrence(source@, dot_on(), start as int, i)
                                || exists|k: int| start <= k < i && occurs_at(source@, dot_on(), k));
                            if crate::text::is_first_occurrence(source@, dot_on(), start as int, i) {
                            } else {
                                let k = choose|k: int| start <= k < i && occurs_at(source@, dot_on(), k);
                                lemma_some_first(source@, start as int, k);
                            }
                        }
                    }
                }
                return None;
            },
            Some(i) => {
                proof {
                    assert(crate::text::is_first_occurrence(source@, dot_on(), start as int, i as int));
                }
                if i + 3 < chars.len() && 'A' <= chars[i + 3] && chars[i + 3] <= 'Z' {
                    proof {
                        assert(is_first_callback(source@, i as int));
                        let c = choose|c: int| is_first_callback(source@, c);
                        if c < i {
                            assert(!callback_at(source@, c));
                        } else if c > i {
                            assert(!callback_at(source@, i as int));
                        }
                    }
                    let end = end_of_alnum(&chars, i + 1);
                    return identifier(source.substring_char(i + 1, end));
                }
                proof {
                    assert forall|j: int| 0 <= j < i + 3 implies !callback_at(source@, j) by {
                        if j == i + 1 || j == i + 2 {
                            assert(source@.subrange(i as int, i + 3) == dot_on());
                            assert(source@[j] != '.');
                        }
                    }
                }
                start = i + 3;
            },
        }
    }
}

/// When some occurrence lies at or past `from`, a first one does.
proof fn lemma_some_first(s: Seq<char>, from: int, k: int)
    requires
        from <= k,
        occurs_at(s, dot_on(), k),
    ensures
        exists|i: int| crate::text::is_first_occurrence(s, dot_on(), from, i),
    decreases k - from,
{
    if exists|j: int| from <= j < k && occurs_at(s, dot_on(), j) {
        let j = choose|j: int| from <= j < k && occurs_at(s, dot_on(), j);
        lemma_some_first(s, from, j);
    } else {
        assert(crate::text::is_first_occurrence(s, dot_on(), from, k));
    }
}

/// `"type":"`, which a typed command's kind follows.
pub open spec fn type_key() -> Seq<char> {
    seq!['"', 't', 'y', 'p', 'e', '"', ':', '"']
}

/// The value of the first `"type":"..."` in `s`, when it is a code name.
pub open spec fn first_type_value_of(s: Seq<char>) -> Option<Seq<char>> {
    match first_occurrence(s, type_key(), 0) {
        Some(i) => {
            let rest = s.skip(i + 8);
            identifier_of(rest.take(len_before(rest, '"') as int))
        },
        None => None,
    }
}

/// The value of the first `"type":"..."` in the script's payload, when it is a plain name.
pub fn first_type_value(source: &str) -> (kind: Option<String>)
    ensures
        opt_view(kind) == first_type_value_of(source@),
{
    let chars = chars_of(source);
    let pat = chars_of("\"type\":\"");
    proof {
        reveal_strlit("\"type\":\"");
        assert(pat@ =~= type_key());
    }
    match find_first(&chars, &pat, 0) {
        None => None,
        Some(i) => {
            let n: usize = chars.len();
            proof {
                assert(crate::text::is_first_occurrence(source@, type_key(), 0, i as int));
                assert(chars@.len() == n);
            }
            let end = end_before(&chars, i + 8, '"');
            proof {
                let rest = source@.skip(i + 8);
                assert(rest.take(len_before(rest, '"') as int) =~= source@.subrange(i + 8, end as int));
            }
            identifier(source.substring_char(i + 8, end))
        },
    }
}

} // verus!

verus! {

/// The callbacks that carry a typed command, whose name is followed by the command's `type`.
pub open spec fn typed_callbacks() -> Seq<Seq<char>> {
    seq![
        "onSidebarCommand"@,
        "onSidebarHostMessage"@,
        "onNativeQuickAccessCommand"@,
        "onGitCommitModalCommand"@,
        "onWorktreeModalCommand"@,
        "onExportTranscriptModalCommand"@,
        "onOsIntegrationCommand"@,
        "onWorkspaceTerminalRuntimeAction"@,
        "onTitlebarGitAction"@,
    ]
}

/// `CustomEvent('`, which a dispatched event's name follows.
pub open spec fn custom_event() -> Seq<char> {
    seq!['C', 'u', 's', 't', 'o', 'm', 'E', 'v', 'e', 'n', 't', '(', '\'']
}

/// `ghostexGpui.`, which an assigned field's name follows.
pub open spec fn gpui_field() -> Seq<char> {
    seq!['g', 'h', 'o', 's', 't', 'e', 'x', 'G', 'p', 'u', 'i', '.']
}

/// The name of the first event `s` dispatches, when it is a code name.
pub open spec fn event_name_of(s: Seq<char>) -> Option<Seq<char>> {
    match first_occurrence(s, custom_event(), 0) {
        Some(i) => {
            let rest = s.skip(i + 13);
            identifier_of(rest.take(len_before(rest, '\'') as int))
        },
        None => None,
    }
}

/// The name of the first `ghostexGpui` field `s` assigns, when it is a code name.
pub open spec fn field_name_of(s: Seq<char>) -> Option<Seq<char>> {
    match first_occurrence(s, gpui_field(), 0) {
        Some(i) => {
            let rest = s.skip(i + 12);
            identifier_of(rest.take(alnum_run(rest) as int))
        },
        None => None,
    }
}

/// The name a script is traced under: its first bridge callback, with the command's `type` for a
/// typed one; else `event:` and the first event it dispatches; else `set:` and the first
/// `ghostexGpui` field it assigns; else `script`.
pub open spec fn runtime_entry_name_of(s: Seq<char>) -> Seq<char> {
    match first_callback_of(s) {
        Some(cb) => if typed_callbacks().contains(cb) {
            match first_type_value_of(s) {
                Some(kind) => cb + ":"@ + kind,
                None => cb,
            }
        } else {
            cb
        },
        None => match event_name_of(s) {
            Some(name) => "event:"@ + name,
            None => match field_name_of(s) {
                Some(name) => "set:"@ + name,
                None => "script"@,
            },
        },
    }
}

/// Whether `cb` is one of the bridge callbacks that carry a typed command.
pub open spec fn is_typed_callback_name(cb: Seq<char>) -> bool {
    cb == "onSidebarCommand"@ || cb == "onSidebarHostMessage"@ || cb == "onNativeQuickAccessCommand"@ || cb == "onGitCommitModalCommand"@ || cb == "onWorktreeModalCommand"@ || cb == "onExportTranscriptModalCommand"@ || cb == "onOsIntegrationCommand"@ || cb == "onWorkspaceTerminalRuntimeAction"@ || cb == "onTitlebarGitAction"@
}

/// A script whose first bridge callback carries a typed command, and whose first `"type":"k"` is
/// a code name, is traced as `<callback>:k`; one whose callback carries no typed command is traced
/// under the callback alone. The typed callbacks are the nine the bridge routes commands through.
pub proof fn law_typed_callbacks_name_their_command(s: Seq<char>, cb: Seq<char>)
    requires
        first_callback_of(s) == Some(cb),
    ensures
        typed_callbacks().len() == 9,
        typed_callbacks().contains(cb) <==> is_typed_callback_name(cb),
        is_typed_callback_name(cb) ==> runtime_entry_name_of(s) == match first_type_value_of(s) {
            Some(k) => cb + ":"@ + k,
            None => cb,
        },
        !is_typed_callback_name(cb) ==> runtime_entry_name_of(s) == cb,
{
    reveal_strlit("onSidebarCommand");
    reveal_strlit("onSidebarHostMessage");
    reveal_strlit("onNativeQuickAccessCommand");
    reveal_strlit("onGitCommitModalCommand");
    reveal_strlit("onWorktreeModalCommand");
    reveal_strlit("onExportTranscriptModalCommand");
    reveal_strlit("onOsIntegrationCommand");
    reveal_strlit("onWorkspaceTerminalRuntimeAction");
    reveal_strlit("onTitlebarGitAction");
    let t = typed_callbacks();
    if is_typed_callback_name(cb) {
        if cb == "onSidebarCommand"@ {
            assert(t[0] == cb);
        } else if cb == "onSidebarHostMessage"@ {
            assert(t[1] == cb);
        } else if cb == "onNativeQuickAccessCommand"@ {
            assert(t[2] == cb);
        } else if cb == "onGitCommitModalCommand"@ {
            assert(t[3] == cb);
        } else if cb == "onWorktreeModalCommand"@ {
            assert(t[4] == cb);
        } else if cb == "onExportTranscriptModalCommand"@ {
            assert(t[5] == cb);
        } else if cb == "onOsIntegrationCommand"@ {
            assert(t[6] == cb);
        } else if cb == "onWorkspaceTerminalRuntimeAction"@ {
            assert(t[7] == cb);
        } else {
            assert(t[8] == cb);
        }
    }
    if t.contains(cb) {
        let i = choose|i: int| 0 <= i < t.len() && t[i] == cb;
        assert(is_typed_callback_name(cb));
    }
}

/// Whether a callback carries a typed command.
fn is_typed_callback(cb: &str) -> (typed: bool)
    ensures
        typed == typed_callbacks().contains(cb@),
{
    let typed = same_text(cb, "onSidebarCommand") || same_text(cb, "onSidebarHostMessage") || same_text(cb, "onNativeQuickAccessCommand") || same_text(cb, "onGitCommitModalCommand") || same_text(cb, "onWorktreeModalCommand") || same_text(cb, "onExportTranscriptModalCommand") || same_text(cb, "onOsIntegrationCommand") || same_text(cb, "onWorkspaceTerminalRuntimeAction") || same_text(cb, "onTitlebarGitAction");
    proof {
        if !typed {
            assert forall|i: int| 0 <= i < typed_callbacks().len() implies typed_callbacks()[i] != cb@ by {
            }
        } else {
        }
    }
    typed
}

/// Names a script the way the trace names its entry point.
pub fn runtime_entry_name(source: &str) -> (name: String)
    ensures
        name@ == runtime_entry_name_of(source@),
{
    if let Some(callback) = first_callback(source) {
        if is_typed_callback(callback.as_str()) {
            if let Some(kind) = first_type_value(source) {
                let mut name = callback.clone();
                name.append(":");
                name.append(kind.as_str());
                return name;
            }
        }
        return callback;
    }
    let chars = chars_of(source);
    let total = chars.len();
    let event = chars_of("CustomEvent('");
    proof {
        reveal_strlit("CustomEvent('");
        assert(event@ =~= custom_event());
    }
    let from_event = match find_first(&chars, &event, 0) {
        Some(i) => {
            proof {
                assert(crate::text::is_first_occurrence(source@, custom_event(), 0, i as int));
            }
            let end = end_before(&chars, i + 13, '\'');
            proof {
                let rest = source@.skip(i + 13);
                assert(rest.take(len_before(rest, '\'') as int) =~= source@.subrange(i + 13, end as int));
            }
            identifier(source.substring_char(i + 13, end))
        },
        None => None,
    };
    if let Some(name) = from_event {
        let mut out = String::from_str("event:");
        out.append(name.as_str());
        return out;
    }
    let field = chars_of("ghostexGpui.");
    proof {
        reveal_strlit("ghostexGpui.");
        assert(field@ =~= gpui_field());
    }
    let from_field = match find_first(&chars, &field, 0) {
        Some(i) => {
            proof {
                assert(crate::text::is_first_occurrence(source@, gpui_field(), 0, i as int));
            }
            let end = end_of_alnum(&chars, i + 12);
            proof {
                let rest = source@.skip(i + 12);
                assert(rest.take(alnum_run(rest) as int) =~= source@.subrange(i + 12, end as int));
            }
            identifier(source.substring_char(i + 12, end))
        },
        None => None,
    };
    if let Some(name) = from_field {
        let mut out = String::from_str("set:");
        out.append(name.as_str());
        return out;
    }
    String::from_str("script")
}

/// The name a text field is written under: the field when it is a code name, else `fallback`.
pub open spec fn named_or(field: Option<Seq<char>>, fallback: Seq<char>) -> Seq<char> {
    match field {
        Some(f) => match identifier_of(f) {
            Some(n) => n,
            None => fallback,
        },
        None => fallback,
    }
}

/// The view of an optional string slice.
pub open spec fn opt_str_view(s: Option<&str>) -> Option<Seq<char>> {
    match s {
        Some(t) => Some(t@),
        None => None,
    }
}

/// A handler's entry name: one to eighty of [`name_char`] or `:`, which joins a handler to the
/// type it handled, as in `handleSidebarMessage:focus`.
pub open spec fn is_handler_name(s: Seq<char>) -> bool {
    1 <= s.len() <= 80 && forall|i: int| 0 <= i < s.len() ==> (name_char(#[trigger] s[i]) || s[i] == ':')
}

/// `text` when it is a handler's entry name.
fn handler_name(text: &str) -> (name: Option<String>)
    ensures
        opt_view(name) == if is_handler_name(text@) {
            Some(text@)
        } else {
            None::<Seq<char>>
        },
{
    let chars = chars_of(text);
    if chars.len() == 0 || chars.len() > 80 {
        return None;
    }
    let mut i: usize = 0;
    while i < chars.len()
        invariant
            0 <= i <= chars@.len(),
            chars@ == text@,
            forall|j: int| 0 <= j < i ==> (name_char(#[trigger] chars@[j]) || chars@[j] == ':'),
        decreases chars@.len() - i,
    {
        let c = chars[i];
        if !(('a' <= c && c <= 'z') || ('A' <= c && c <= 'Z') || ('0' <= c && c <= '9') || c == '.'
            || c == '-' || c == '_' || c == ':') {
            return None;
        }
        i = i + 1;
    }
    Some(String::from_str(text))
}

/// The entry a `traceEntry` message of the runtime names: its `name` when that is a handler's
/// entry name (`handleSidebarMessage:<type>`), else `handleSidebarMessage:untyped`.
pub fn handler_entry_name(name: Option<&str>) -> (entry: String)
    ensures
        entry@ == match name {
            Some(n) => if is_handler_name(n@) {
                n@
            } else {
                "handleSidebarMessage:untyped"@
            },
            None => "handleSidebarMessage:untyped"@,
        },
{
    let found = match name {
        Some(n) => handler_name(n),
        None => None,
    };
    match found {
        Some(n) => n,
        None => String::from_str("handleSidebarMessage:untyped"),
    }
}

/// The name a message the runtime posted is written under: its `type` when that is a code name,
/// else `untyped`.
pub fn message_type(kind: Option<&str>) -> (name: String)
    ensures
        name@ == named_or(opt_str_view(kind), "untyped"@),
{
    let found = match kind {
        Some(k) => identifier(k),
        None => None,
    };
    match found {
        Some(n) => n,
        None => String::from_str("untyped"),
    }
}

} // verus!
