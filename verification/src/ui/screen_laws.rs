//! What the screens show: laws that find in the texts what they are about.
use crate::messenger::incoming::{is_harmless, messages_are_kept_to_the_letter, OpenedView};
use crate::storage::records::{SettingsView, StoredMessageView};
use crate::text;
use crate::text::{
    decimal, decimal_is_read_back, digits_value, has_part, lower, part_at, six_digits,
};
use crate::ui::contacts::{alert_text, badge_of, codes_text, counted, empty_text, request_text};
use crate::ui::conversation::{line_of, shown_lines, title_of};
use crate::ui::conversation_keys::matches_query;
use crate::ui::input::harmless_text_is_kept;
use crate::ui::laws::parts_are_held;
use crate::ui::passphrase::{
    attempt_text, create_error, feedback_texts, label_of, meter_of, too_short_text, typed,
    weak_text, MAX_ATTEMPTS, MIN_LENGTH,
};
use crate::ui::settings::{item_at, item_text, popup_texts, threshold_text, SettingsItem};
use crate::ui::state::{SettingsEditMode, NUM_SETTINGS};
use vstd::prelude::*;
use vstd::utf8::encode_utf8;

verus! {

/// The lines on screen are those of the messages that match the search, in their
/// order, and those of all messages where nothing is searched for.
pub proof fn every_match_is_shown(messages: Seq<StoredMessageView>, query: Seq<char>)
    ensures
        query.len() > 0 ==> shown_lines(messages, query) == messages.filter(
            |m: StoredMessageView| matches_query(m, query),
        ).map_values(|m: StoredMessageView| line_of(m)),
        query.len() == 0 ==> shown_lines(messages, query) == messages.map_values(
            |m: StoredMessageView| line_of(m),
        ),
    decreases messages.len(),
{
    reveal(Seq::filter);
    let p = |m: StoredMessageView| matches_query(m, query);
    let f = |m: StoredMessageView| line_of(m);
    let s = shown_lines(messages, query);
    if messages.len() > 0 {
        every_match_is_shown(messages.drop_last(), query);
        let front = messages.drop_last().filter(p);
        if query.len() == 0 {
            assert(s =~= messages.map_values(f));
        } else if matches_query(messages.last(), query) {
            assert(messages.filter(p) =~= front.push(messages.last()));
            assert(s =~= messages.filter(p).map_values(f));
        } else {
            assert(messages.filter(p) =~= front);
        }
    } else {
        assert(s =~= messages.map_values(f));
        assert(s =~= messages.filter(p).map_values(f));
    }
}

/// A line shows its message: who wrote it, the counter, and the text to the
/// letter where it is harmless.
pub proof fn lines_show_their_message(m: StoredMessageView)
    ensures
        line_of(m).from_us == m.from_us,
        has_part(line_of(m).counter, six_digits(m.counter as nat)),
        digits_value(six_digits(m.counter as nat)) == m.counter,
        is_harmless(m.content) ==> line_of(m).content == m.content,
{
    parts_are_held("[#"@, six_digits(m.counter as nat), "] "@);
    text::six_digits_are_read_back(m.counter as nat);
    if is_harmless(m.content) {
        harmless_text_is_kept(m.content);
    }
}

/// A search finds the message that it was taken from, and goes by the text
/// alone: neither the case of the query nor who wrote the message matters.
pub proof fn searches_go_by_the_text(m: StoredMessageView, n: StoredMessageView, query: Seq<char>)
    ensures
        matches_query(m, m.content),
        matches_query(m, seq![]) || lower(seq![]).len() > 0,
        n.content == m.content ==> matches_query(n, query) == matches_query(m, query),
        lower(query) == lower(m.content) ==> matches_query(m, query),
{
    let t = lower(m.content);
    assert(t.subrange(0, t.len() as int) =~= t);
    assert(part_at(t, t, 0));
    let e = lower(seq![]);
    if e.len() == 0 {
        assert(t.subrange(0, 0) =~= e);
        assert(part_at(t, e, 0));
    }
}

/// What stands in a text stands in every text that goes on with it.
pub proof fn parts_stay(s: Seq<char>, p: Seq<char>, back: Seq<char>)
    requires
        has_part(s, p),
    ensures
        has_part(s + back, p),
{
    let i = choose|i: int| part_at(s, p, i);
    assert((s + back).subrange(i, i + p.len()) =~= s.subrange(i, i + p.len()));
    assert(part_at(s + back, p, i));
}

/// The title names the contact, and where something is searched for it tells
/// what, how many messages were found and of how many.
pub proof fn titles_tell_what_is_shown(name: Seq<char>, query: Seq<char>, shown: nat, all: nat)
    requires
        is_harmless(name),
        is_harmless(query),
    ensures
        has_part(title_of(name, query, shown, all), name),
        has_part(title_of(name, query, shown, all), query) || query.len() == 0,
        query.len() > 0 ==> has_part(
            title_of(name, query, shown, all),
            decimal(shown) + "/"@ + decimal(all),
        ),
{
    harmless_text_is_kept(name);
    harmless_text_is_kept(query);
    if query.len() == 0 {
        parts_are_held(" "@, name, " "@);
    } else {
        let t = title_of(name, query, shown, all);
        let a = " "@ + name;
        let b = a + " — search: \""@;
        let n = decimal(shown) + "/"@ + decimal(all);
        assert(t =~= " "@ + name + (" — search: \""@ + query + "\" ("@ + n + ") "@));
        parts_are_held(" "@, name, " — search: \""@ + query + "\" ("@ + n + ") "@);
        assert(t =~= b + query + ("\" ("@ + n + ") "@));
        parts_are_held(b, query, "\" ("@ + n + ") "@);
        assert(t =~= (b + query + "\" ("@) + n + ") "@);
        parts_are_held(b + query + "\" ("@, n, ") "@);
    }
}

/// Counts are shown where there is something to count, and not otherwise.
pub proof fn counts_are_shown(label: Seq<char>, n: u32)
    ensures
        n > 0 ==> has_part(badge_of(n), decimal(n as nat)),
        n > 0 ==> has_part(counted(label, n as nat), decimal(n as nat)),
        n > 0 ==> has_part(empty_text(n as nat), decimal(n as nat)),
        n == 0 ==> badge_of(n).len() == 0 && counted(label, n as nat) == label,
        label.is_prefix_of(counted(label, n as nat)),
        digits_value(decimal(n as nat)) == n,
{
    decimal_is_read_back(n as nat);
    let d = decimal(n as nat);
    parts_are_held(" ("@, d, ")"@);
    parts_are_held(label + " ("@, d, ")"@);
    parts_are_held(
        "No contacts yet.\n\n[a]  Add a contact using their contact code\n[e]  Show your contact code to share with others\n[p]  Review "@,
        d,
        " pending contact request(s)"@,
    );
    assert(counted(label, n as nat).subrange(0, label.len() as int) =~= label);
}

/// A key alert names the contact and shows the new fingerprint.
pub proof fn alerts_show_the_fingerprint(name: Seq<char>, fingerprint: Seq<char>)
    requires
        is_harmless(name),
        is_harmless(fingerprint),
    ensures
        has_part(alert_text(name, fingerprint), name),
        has_part(alert_text(name, fingerprint), fingerprint),
{
    harmless_text_is_kept(name);
    harmless_text_is_kept(fingerprint);
    let a = "\n\n  ⛔  KEY CHANGE DETECTED\n\nContact: "@;
    let b = "\n\nTheir key has changed. This could indicate a security compromise or device change.\n\nNew fingerprint:\n"@;
    let c = "\n\nVerify this out-of-band before continuing. Press [V] to mark verified, [R] to reject."@;
    parts_are_held(a, name, b);
    parts_stay(a + name + b, name, fingerprint);
    parts_stay(a + name + b + fingerprint, name, c);
    parts_are_held(a + name + b, fingerprint, c);
}

/// The review of a request shows the fingerprint of whoever asks, their first
/// message to the letter and, at the end, the name that is being typed.
pub proof fn reviews_show_the_request(p: OpenedView, t: Seq<char>, name_buf: Seq<char>)
    requires
        p.plaintext == encode_utf8(t),
        is_harmless(t),
    ensures
        has_part(request_text(p, name_buf), p.bundle.fingerprint()),
        has_part(request_text(p, name_buf), t),
        name_buf.is_suffix_of(request_text(p, name_buf)),
{
    messages_are_kept_to_the_letter(t);
    let f = p.bundle.fingerprint();
    let a = "An unknown contact wants to message you.\n\nTheir fingerprint:\n"@;
    let b = "\n\nTheir first message:\n\""@;
    let c = "\"\n\nVerify this fingerprint out-of-band before accepting.\n\nEnter a name for this contact:\n"@;
    parts_are_held(a, f, b);
    parts_stay(a + f + b, f, t);
    parts_stay(a + f + b + t, f, c);
    parts_stay(a + f + b + t + c, f, name_buf);
    parts_are_held(a + f + b, t, c);
    parts_stay(a + f + b + t + c, t, name_buf);
    let s = request_text(p, name_buf);
    assert(s.subrange(s.len() - name_buf.len(), s.len() as int) =~= name_buf);
}

/// Both codes are shown in full.
pub proof fn codes_are_shown(bootstrap: Seq<char>, export: Seq<char>)
    ensures
        has_part(codes_text(bootstrap, export), bootstrap),
        export.is_suffix_of(codes_text(bootstrap, export)),
{
    let a = "Share this code out-of-band (in person, Signal, etc.).\nNever share through an unverified channel.\n\nBootstrap code (short, fits in a QR code):\n"@;
    let b = "\n\nFull contact code (manual sharing):\n"@;
    parts_are_held(a, bootstrap, b);
    parts_stay(a + bootstrap + b, bootstrap, export);
    let s = codes_text(bootstrap, export);
    assert(s.subrange(s.len() - export.len(), s.len() as int) =~= export);
}

/// The settings list has one line for every entry, and each line ends with the
/// value that is kept.
pub proof fn settings_show_their_values(s: SettingsView, i: int, j: int)
    requires
        0 <= i < NUM_SETTINGS,
        0 <= j < NUM_SETTINGS,
    ensures
        item_at(i) is Some,
        item_at(i) == item_at(j) ==> i == j,
        s.tor_socks_addr.is_suffix_of(item_text(s, SettingsItem::TorAddress)),
        s.nym_gateway matches Some(g) ==> g.is_suffix_of(item_text(s, SettingsItem::NymGateway)),
        s.default_auto_delete matches Some(n) ==> has_part(
            item_text(s, SettingsItem::AutoDelete),
            decimal(n as nat),
        ) && decimal(n as nat).is_prefix_of(threshold_text(Some(n))),
{
    let t = item_text(s, SettingsItem::TorAddress);
    assert(t.subrange(t.len() - s.tor_socks_addr.len(), t.len() as int) =~= s.tor_socks_addr);
    if let Some(g) = s.nym_gateway {
        let u = item_text(s, SettingsItem::NymGateway);
        assert(u.subrange(u.len() - g.len(), u.len() as int) =~= g);
    }
    if let Some(n) = s.default_auto_delete {
        let d = decimal(n as nat);
        assert(item_text(s, SettingsItem::AutoDelete) =~= "Auto-delete after: "@ + d
            + " messages"@);
        parts_are_held("Auto-delete after: "@, d, " messages"@);
        assert(threshold_text(Some(n)).subrange(0, d.len() as int) =~= d);
    }
}

/// Thresholds look different, and no threshold looks like one.
pub proof fn thresholds_are_told_apart(a: u32, b: u32)
    requires
        threshold_text(Some(a)) == threshold_text(Some(b)),
    ensures
        a == b,
        threshold_text(Some(a)) != threshold_text(None),
{
    reveal_strlit(" messages");
    reveal_strlit("disabled");
    let x = decimal(a as nat);
    let y = decimal(b as nat);
    decimal_is_read_back(a as nat);
    decimal_is_read_back(b as nat);
    assert(x =~= threshold_text(Some(a)).take(x.len() as int));
    assert(y =~= threshold_text(Some(b)).take(y.len() as int));
    assert(text::is_digit(x[0]));
    assert(threshold_text(Some(a))[0] == x[0]);
}

/// A popup is open in every mode but the closed one.
pub proof fn popups_are_open_while_editing(mode: SettingsEditMode)
    ensures
        popup_texts(mode) is None <==> mode is Closed,
{
}

/// Scores have labels of their own, the best and the worst apart on both
/// screens.
pub proof fn labels_tell_scores_apart(a: u8, b: u8)
    requires
        a <= 4,
        b <= 4,
        a != b,
    ensures
        label_of(a) != label_of(b),
        a >= 1 && b >= 1 ==> meter_of(a) != meter_of(b),
{
    reveal_strlit("Very weak");
    reveal_strlit("Weak");
    reveal_strlit("Fair");
    reveal_strlit("Strong");
    reveal_strlit("Very strong");
    reveal_strlit("Good");
    assert("Very weak"@[0] == 'V' && "Very weak"@[5] == 'w');
    assert("Very strong"@[0] == 'V' && "Very strong"@[5] == 's');
    assert("Weak"@[0] == 'W' && "Fair"@[0] == 'F' && "Good"@[0] == 'G' && "Strong"@[0] == 'S');
}

/// A refused passphrase is told its score, and a short one how long it is and
/// how long it must be.
pub proof fn refusals_tell_the_score(score: u8, len: nat)
    ensures
        has_part(weak_text(score), decimal(score as nat)),
        has_part(weak_text(score), label_of(score)),
        has_part(too_short_text(len), decimal(len)),
        has_part(too_short_text(len), decimal(MIN_LENGTH as nat)),
{
    let a = "Passphrase is too weak (score "@;
    let d = decimal(score as nat);
    let z = "). Requirements: ≥12 chars, score ≥3."@;
    parts_are_held(a, d, "/4: "@);
    parts_stay(a + d + "/4: "@, d, label_of(score));
    parts_stay(a + d + "/4: "@ + label_of(score), d, z);
    parts_are_held(a + d + "/4: "@, label_of(score), z);
    let b = "Passphrase must be at least "@;
    let m = decimal(MIN_LENGTH as nat);
    let c = " characters (currently "@;
    parts_are_held(b, m, c);
    parts_stay(b + m + c, m, decimal(len));
    parts_stay(b + m + c + decimal(len), m, ")"@);
    parts_are_held(b + m + c, decimal(len), ")"@);
}

/// Every suggestion is told, in its order, behind the warning where there is
/// one.
pub proof fn feedback_is_told(warning: Option<Seq<char>>, suggestions: Seq<Seq<char>>)
    ensures
        ({
            let n: int = if warning is Some {
                1
            } else {
                0
            };
            let all = feedback_texts(warning, suggestions);
            &&& all.len() == n + suggestions.len()
            &&& warning matches Some(w) ==> w.is_suffix_of(all[0])
            &&& forall|i: int|
                0 <= i < suggestions.len() ==> (#[trigger] suggestions[i]).is_suffix_of(all[n + i])
        }),
{
    let n: int = if warning is Some {
        1
    } else {
        0
    };
    let all = feedback_texts(warning, suggestions);
    if let Some(w) = warning {
        let t = "Warning: "@ + w;
        assert(t.subrange(t.len() - w.len(), t.len() as int) =~= w);
    }
    assert forall|i: int| 0 <= i < suggestions.len() implies (#[trigger] suggestions[i]).is_suffix_of(
        all[n + i],
    ) by {
        let t = "Suggestion: "@ + suggestions[i];
        assert(all[n + i] == t);
        assert(t.subrange(t.len() - suggestions[i].len(), t.len() as int) =~= suggestions[i]);
    }
}

/// Every attempt that is not the last is told by its number.
pub proof fn attempts_are_counted(attempt: u8)
    requires
        attempt < MAX_ATTEMPTS,
    ensures
        has_part(attempt_text(attempt), decimal(attempt as nat)),
{
    parts_are_held("Incorrect passphrase ("@, decimal(attempt as nat), "/3). Try again."@);
}

/// A vault can be made of two passphrases exactly where the first is long enough
/// and the second is there and another one.
pub proof fn good_passphrases_make_a_vault(passphrase: Seq<char>, duress: Seq<char>)
    ensures
        create_error(passphrase, duress) is None <==> encode_utf8(passphrase).len() >= 8
            && duress.len() > 0 && duress != passphrase,
{
}

/// What is typed is taken as it is: ASCII bytes one for one, in their order.
pub proof fn typed_bytes_are_taken(b: Seq<u8>)
    requires
        forall|i: int| 0 <= i < b.len() ==> b[i] < 128,
    ensures
        typed(b).len() == b.len(),
        forall|i: int| 0 <= i < b.len() ==> typed(b)[i] as int == #[trigger] b[i],
    decreases b.len(),
{
    if b.len() > 0 {
        let t = b.drop_last();
        assert forall|i: int| 0 <= i < t.len() implies t[i] < 128 by {
            assert(t[i] == b[i]);
        }
        typed_bytes_are_taken(t);
        assert(b.last() == b[b.len() - 1]);
        assert forall|i: int| 0 <= i < b.len() implies typed(b)[i] as int == #[trigger] b[i] by {
            if i < t.len() {
                assert(t[i] == b[i]);
            }
        }
    }
}

/// Bytes that are no ASCII characters are passed over, and nothing else is.
pub proof fn other_bytes_are_passed_over(a: Seq<u8>, byte: u8, b: Seq<u8>)
    requires
        byte >= 128,
    ensures
        typed(a + seq![byte] + b) == typed(a + b),
    decreases b.len(),
{
    let s = a + seq![byte] + b;
    if b.len() == 0 {
        assert(s.drop_last() =~= a);
        assert(a + b =~= a);
        assert(s.last() == byte);
    } else {
        other_bytes_are_passed_over(a, byte, b.drop_last());
        assert(s.drop_last() =~= a + seq![byte] + b.drop_last());
        assert((a + b).drop_last() =~= a + b.drop_last());
        assert(s.last() == b.last());
        assert((a + b).last() == b.last());
    }
}

} // verus!
