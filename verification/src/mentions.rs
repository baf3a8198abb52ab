//! Making a message safe to repeat: mentions of members and roles become
//! plain names, and `@everyone` and `@here` no longer ping.

use vstd::prelude::*;
use crate::text::{decimal, zero_padded, replace_all, contains_seq, occurs_at, replace_str, contains_str, push_decimal, push_zero_padded};

verus! {

/// A member mentioned in a message.
#[derive(Debug, Clone)]
pub struct MentionedUser {
    pub id: u64,
    pub name: String,
    pub discriminator: Option<u16>,
}

/// A role mentioned in a message, with its name if the guild's roles
/// are known and hold it.
#[derive(Debug, Clone)]
pub struct MentionedRole {
    pub id: u64,
    pub name: Option<String>,
}

/// What making a message safe reads of it.
#[derive(Debug, Clone)]
pub struct MessageMentions {
    pub content: String,
    pub mentions: Vec<MentionedUser>,
    pub in_guild: bool,
    pub mention_roles: Vec<MentionedRole>,
}

/// A member's plain name: `@name`, with `#` and the four-digit
/// discriminator if there is one.
pub open spec fn at_name(u: MentionedUser) -> Seq<char> {
    "@"@ + u.name@ + match u.discriminator {
        Some(d) => "#"@ + zero_padded(decimal(d as nat), 4),
        None => Seq::empty(),
    }
}

/// The mention of a member.
pub open spec fn user_mention(id: u64) -> Seq<char> {
    "<@"@ + decimal(id as nat) + ">"@
}

/// The mention of a member by nickname.
pub open spec fn nick_mention(id: u64) -> Seq<char> {
    "<@!"@ + decimal(id as nat) + ">"@
}

/// The text with the mentions of one member replaced by their name: the
/// plain mention if the text holds one, else the nickname mention.
pub open spec fn without_user(s: Seq<char>, u: MentionedUser) -> Seq<char> {
    let m = if contains_seq(s, user_mention(u.id)) {
        user_mention(u.id)
    } else {
        nick_mention(u.id)
    };
    replace_all(s, m, at_name(u))
}

/// The text with the members replaced, one after another.
pub open spec fn without_users(s: Seq<char>, us: Seq<MentionedUser>) -> Seq<char>
    decreases us.len(),
{
    if us.len() == 0 {
        s
    } else {
        without_user(without_users(s, us.drop_last()), us.last())
    }
}

/// The mention of a role.
pub open spec fn role_mention(id: u64) -> Seq<char> {
    "<@&"@ + decimal(id as nat) + ">"@
}

/// A role's plain name, or `@deleted-role` when it is unknown.
pub open spec fn role_name(r: MentionedRole) -> Seq<char> {
    match r.name {
        Some(n) => "@"@ + n@,
        None => "@deleted-role"@,
    }
}

/// The text with the roles replaced, one after another.
pub open spec fn without_roles(s: Seq<char>, rs: Seq<MentionedRole>) -> Seq<char>
    decreases rs.len(),
{
    if rs.len() == 0 {
        s
    } else {
        replace_all(without_roles(s, rs.drop_last()), role_mention(rs.last().id), role_name(rs.last()))
    }
}

/// The safe text of a message: members replaced, then roles (in a
/// guild), then `@everyone` and `@here` broken by a zero-width space.
pub open spec fn safe_text(m: MessageMentions) -> Seq<char> {
    let users = without_users(m.content@, m.mentions@);
    let roles = if m.in_guild {
        without_roles(users, m.mention_roles@)
    } else {
        users
    };
    replace_all(replace_all(roles, "@everyone"@, "@\u{200B}everyone"@), "@here"@, "@\u{200B}here"@)
}

fn write_mention(prefix: &str, id: u64) -> (r: String)
    ensures
        r@ == prefix@ + decimal(id as nat) + ">"@,
{
    let mut r = String::new();
    r.append(prefix);
    push_decimal(&mut r, id);
    r.append(">");
    r
}

proof fn lemma_mentions_not_empty(id: u64)
    ensures
        user_mention(id).len() > 0,
        nick_mention(id).len() > 0,
        role_mention(id).len() > 0,
{
    reveal_strlit(">");
}

/// Makes a message safe to repeat.
pub fn content_safe(message: &MessageMentions) -> (r: String)
    ensures
        r@ == safe_text(*message),
{
    let mut result = message.content.clone();
    let mut i: usize = 0;
    while i < message.mentions.len()
        invariant
            i <= message.mentions@.len(),
            result@ == without_users(message.content@, message.mentions@.take(i as int)),
        decreases message.mentions@.len() - i,
    {
        let u = &message.mentions[i];
        let mut at = String::new();
        at.append("@");
        at.append(u.name.as_str());
        if let Some(d) = u.discriminator {
            at.append("#");
            push_zero_padded(&mut at, d as u64, 4);
        }
        assert(at@ =~= at_name(*u));
        let plain = write_mention("<@", u.id);
        let m = if contains_str(result.as_str(), plain.as_str()) {
            plain
        } else {
            write_mention("<@!", u.id)
        };
        proof {
            lemma_mentions_not_empty(u.id);
        }
        result = replace_str(result.as_str(), m.as_str(), at.as_str());
        proof {
            assert(message.mentions@.take(i + 1).drop_last() =~= message.mentions@.take(i as int));
        }
        i = i + 1;
    }
    assert(message.mentions@.take(message.mentions@.len() as int) =~= message.mentions@);
    if message.in_guild {
        let ghost users = result@;
        let mut k: usize = 0;
        while k < message.mention_roles.len()
            invariant
                k <= message.mention_roles@.len(),
                result@ == without_roles(users, message.mention_roles@.take(k as int)),
            decreases message.mention_roles@.len() - k,
        {
            let role = &message.mention_roles[k];
            let mention = write_mention("<@&", role.id);
            let name = match &role.name {
                Some(n) => {
                    let mut t = String::new();
                    t.append("@");
                    t.append(n.as_str());
                    t
                },
                None => String::from_str("@deleted-role"),
            };
            proof {
                lemma_mentions_not_empty(role.id);
            }
            result = replace_str(result.as_str(), mention.as_str(), name.as_str());
            proof {
                assert(message.mention_roles@.take(k + 1).drop_last() =~= message.mention_roles@.take(
                    k as int,
                ));
            }
            k = k + 1;
        }
        assert(message.mention_roles@.take(message.mention_roles@.len() as int)
            =~= message.mention_roles@);
    }
    proof {
        reveal_strlit("@everyone");
        reveal_strlit("@here");
    }
    let first = replace_str(result.as_str(), "@everyone", "@\u{200B}everyone");
    replace_str(first.as_str(), "@here", "@\u{200B}here")
}

/// A text shaped like a mass mention: `@` and then no other `@`.
pub open spec fn mention_like(q: Seq<char>) -> bool {
    &&& q.len() >= 2
    &&& q[0] == '@'
    &&& forall|i: int| 1 <= i < q.len() ==> q[i] != '@'
}

/// Where the text after a replacement has no `@` at its start, it was
/// copied from the text before: every replacement starts with `@`.
proof fn lemma_copied_prefix(s: Seq<char>, pat: Seq<char>, rep: Seq<char>, k: int)
    requires
        pat.len() > 0,
        rep.len() > 0,
        rep[0] == '@',
        0 <= k <= replace_all(s, pat, rep).len(),
        forall|j: int| 0 <= j < k ==> replace_all(s, pat, rep)[j] != '@',
    ensures
        k <= s.len(),
        forall|j: int| 0 <= j < k ==> replace_all(s, pat, rep)[j] == s[j],
    decreases s.len(),
{
    let out = replace_all(s, pat, rep);
    if s.len() < pat.len() {
    } else if s.take(pat.len() as int) == pat {
        let rest = replace_all(s.skip(pat.len() as int), pat, rep);
        assert(out == rep + rest);
        if k > 0 {
            assert(out[0] == rep[0]);
        }
    } else {
        let rest = replace_all(s.skip(1), pat, rep);
        assert(out == seq![s[0]] + rest);
        if k > 0 {
            assert forall|j: int| 0 <= j < k - 1 implies rest[j] != '@' by {
                assert(out[j + 1] == rest[j]);
            }
            lemma_copied_prefix(s.skip(1), pat, rep, k - 1);
            assert forall|j: int| 0 <= j < k implies out[j] == s[j] by {
                if j > 0 {
                    assert(out[j] == rest[j - 1]);
                    assert(s.skip(1)[j - 1] == s[j]);
                }
            }
        }
    }
}

/// A mention-like text found after a replacement by a text that starts
/// with `@` and a different second character was already in the text
/// before, at a place where no replacement happened.
proof fn lemma_occurrence_from_source(s: Seq<char>, pat: Seq<char>, rep: Seq<char>, q: Seq<char>, o: int)
    requires
        pat.len() > 0,
        rep.len() >= 2,
        rep[0] == '@',
        forall|i: int| 1 <= i < rep.len() ==> rep[i] != '@',
        mention_like(q),
        rep[1] != q[1],
        occurs_at(replace_all(s, pat, rep), o, q),
    ensures
        exists|i: int| occurs_at(s, i, q) && !occurs_at(s, i, pat),
    decreases s.len(),
{
    let out = replace_all(s, pat, rep);
    assert(out.subrange(o, o + q.len()) == q);
    assert(out[o] == q[0]) by {
        assert(out.subrange(o, o + q.len())[0] == out[o]);
    }
    assert(out[o + 1] == q[1]) by {
        assert(out.subrange(o, o + q.len())[1] == out[o + 1]);
    }
    if s.len() < pat.len() {
        assert(!occurs_at(s, o, pat));
        assert(occurs_at(s, o, q));
    } else if s.take(pat.len() as int) == pat {
        let t = s.skip(pat.len() as int);
        let rest = replace_all(t, pat, rep);
        assert(out == rep + rest);
        if o < rep.len() {
            assert(out[o] == rep[o]);
            if o == 0 {
                assert(out[1] == rep[1]);
            }
        } else {
            let o2 = o - rep.len();
            assert(rest.subrange(o2, o2 + q.len()) =~= out.subrange(o, o + q.len()));
            lemma_occurrence_from_source(t, pat, rep, q, o2);
            let i = choose|i: int| occurs_at(t, i, q) && !occurs_at(t, i, pat);
            let i2 = i + pat.len();
            assert(s.subrange(i2, i2 + q.len()) =~= t.subrange(i, i + q.len()));
            if occurs_at(s, i2, pat) {
                assert(s.subrange(i2, i2 + pat.len()) =~= t.subrange(i, i + pat.len()));
            }
            assert(occurs_at(s, i2, q) && !occurs_at(s, i2, pat));
        }
    } else {
        let t = s.skip(1);
        let rest = replace_all(t, pat, rep);
        assert(out == seq![s[0]] + rest);
        if o >= 1 {
            let o2 = o - 1;
            assert(rest.subrange(o2, o2 + q.len()) =~= out.subrange(o, o + q.len()));
            lemma_occurrence_from_source(t, pat, rep, q, o2);
            let i = choose|i: int| occurs_at(t, i, q) && !occurs_at(t, i, pat);
            let i2 = i + 1;
            assert(s.subrange(i2, i2 + q.len()) =~= t.subrange(i, i + q.len()));
            if occurs_at(s, i2, pat) {
                assert(s.subrange(i2, i2 + pat.len()) =~= t.subrange(i, i + pat.len()));
            }
            assert(occurs_at(s, i2, q) && !occurs_at(s, i2, pat));
        } else {
            let k = q.len() - 1;
            assert forall|j: int| 0 <= j < k implies rest[j] != '@' by {
                assert(out.subrange(0, q.len() as int)[j + 1] == out[j + 1]);
                assert(out[j + 1] == rest[j]);
            }
            lemma_copied_prefix(t, pat, rep, k);
            assert forall|j: int| 0 <= j < q.len() implies s[j] == q[j] by {
                assert(out.subrange(0, q.len() as int)[j] == out[j]);
                if j > 0 {
                    assert(out[j] == rest[j - 1]);
                    assert(t[j - 1] == s[j]);
                }
            }
            assert(s.subrange(0, q.len() as int) =~= q);
            assert(occurs_at(s, 0, q));
            if occurs_at(s, 0, pat) {
                assert(s.subrange(0, pat.len() as int) =~= s.take(pat.len() as int));
            }
        }
    }
}

/// After replacing `pat` by `rep` (shaped as above), a mention-like text
/// that was nowhere in the text before, or only where `pat` was replaced,
/// is nowhere in the text after.
proof fn lemma_not_created(s: Seq<char>, pat: Seq<char>, rep: Seq<char>, q: Seq<char>)
    requires
        pat.len() > 0,
        rep.len() >= 2,
        rep[0] == '@',
        forall|i: int| 1 <= i < rep.len() ==> rep[i] != '@',
        mention_like(q),
        rep[1] != q[1],
        forall|i: int| occurs_at(s, i, q) ==> occurs_at(s, i, pat),
    ensures
        !contains_seq(replace_all(s, pat, rep), q),
{
    if contains_seq(replace_all(s, pat, rep), q) {
        let o = choose|o: int| occurs_at(replace_all(s, pat, rep), o, q);
        lemma_occurrence_from_source(s, pat, rep, q, o);
    }
}

/// No mass mention survives: the safe text of any message holds neither
/// `@everyone` nor `@here`.
pub proof fn lemma_no_mass_mentions(m: MessageMentions)
    ensures
        !contains_seq(safe_text(m), "@everyone"@),
        !contains_seq(safe_text(m), "@here"@),
{
    reveal_strlit("@everyone");
    reveal_strlit("@here");
    reveal_strlit("@\u{200B}everyone");
    reveal_strlit("@\u{200B}here");
    let users = without_users(m.content@, m.mentions@);
    let t0 = if m.in_guild {
        without_roles(users, m.mention_roles@)
    } else {
        users
    };
    let e = "@everyone"@;
    let h = "@here"@;
    let re = "@\u{200B}everyone"@;
    let rh = "@\u{200B}here"@;
    let t1 = replace_all(t0, e, re);
    assert(mention_like(e));
    assert(mention_like(h));
    lemma_not_created(t0, e, re, e);
    assert forall|i: int| occurs_at(t1, i, e) implies occurs_at(t1, i, h) by {
        assert(contains_seq(t1, e));
    }
    lemma_not_created(t1, h, rh, e);
    assert forall|i: int| occurs_at(t1, i, h) implies occurs_at(t1, i, h) by {}
    lemma_not_created(t1, h, rh, h);
}

} // verus!
