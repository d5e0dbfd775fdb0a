use unicode_segmentation::UnicodeSegmentation;
use vstd::prelude::*;

use crate::error::Error;
use crate::irc::{ChatMessage, ComponentMessage, InboundEvent, MessageDispatcher};
use crate::request::RequestChannel;

verus! {

/// The segments `s` splits into on UAX #29 word boundaries, in order.
pub uninterp spec fn word_bounds_of(s: Seq<char>) -> Seq<Seq<char>>;

/// Relies on unicode_segmentation's `UnicodeSegmentation::split_word_bounds`:
/// the segmentation depends on the characters alone, and the crate documents
/// that concatenating the returned substrings yields the original string.
#[verifier::external_body]
pub(crate) fn split_word_bounds(s: &str) -> (r: Vec<String>)
    ensures
        r.deep_view() == word_bounds_of(s@),
        r.deep_view().flatten() == s@,
{
    s.split_word_bounds().map(|w| w.to_string()).collect()
}

/// Character-wise string equality: two string slices are equal exactly when
/// their character sequences are.
pub fn str_eq(a: &str, b: &str) -> (r: bool)
    ensures
        r == (a@ == b@),
{
    let n = a.unicode_len();
    let m = b.unicode_len();
    if n != m {
        return false;
    }
    let mut i: usize = 0;
    while i < n
        invariant
            0 <= i <= n,
            n == a@.len(),
            n == b@.len(),
            forall|j: int| 0 <= j < i ==> a@[j] == b@[j],
        decreases n - i,
    {
        if a.get_char(i) != b.get_char(i) {
            return false;
        }
        i = i + 1;
    }
    proof {
        assert(a@ =~= b@);
    }
    true
}

/// Lexicographic order on character sequences, by unicode scalar value; a
/// prefix sorts before its extensions.
pub open spec fn lex_le(a: Seq<char>, b: Seq<char>) -> bool
    decreases a.len(),
{
    if a.len() == 0 {
        true
    } else if b.len() == 0 {
        false
    } else if a[0] == b[0] {
        lex_le(a.drop_first(), b.drop_first())
    } else {
        (a[0] as u32) < (b[0] as u32)
    }
}

/// Character-wise lexicographic comparison of two string slices.
pub fn str_le(a: &str, b: &str) -> (r: bool)
    ensures
        r == lex_le(a@, b@),
{
    let n = a.unicode_len();
    let m = b.unicode_len();
    let mut i: usize = 0;
    proof {
        assert(a@.skip(0) =~= a@);
        assert(b@.skip(0) =~= b@);
    }
    loop
        invariant
            0 <= i <= n,
            i <= m,
            n == a@.len(),
            m == b@.len(),
            lex_le(a@, b@) == lex_le(a@.skip(i as int), b@.skip(i as int)),
        decreases n - i,
    {
        if i == n {
            proof {
                assert(a@.skip(i as int).len() == 0);
            }
            return true;
        }
        if i == m {
            proof {
                assert(b@.skip(i as int).len() == 0);
                assert(a@.skip(i as int).len() > 0);
            }
            return false;
        }
        let ca = a.get_char(i);
        let cb = b.get_char(i);
        proof {
            assert(a@.skip(i as int)[0] == a@[i as int]);
            assert(b@.skip(i as int)[0] == b@[i as int]);
        }
        if ca != cb {
            return (ca as u32) < (cb as u32);
        }
        proof {
            assert(a@.skip(i as int).drop_first() =~= a@.skip(i + 1));
            assert(b@.skip(i as int).drop_first() =~= b@.skip(i + 1));
        }
        i = i + 1;
    }
}

/// `s` with `x` inserted in front of the first entry that `x` sorts at or
/// before: inserting into a sorted sequence keeps it sorted.
pub open spec fn insert_sorted(x: Seq<char>, s: Seq<Seq<char>>) -> Seq<Seq<char>>
    decreases s.len(),
{
    if s.len() == 0 {
        seq![x]
    } else if lex_le(x, s.first()) {
        seq![x] + s
    } else {
        seq![s.first()] + insert_sorted(x, s.drop_first())
    }
}

/// Insertion sort of a sequence of character sequences, in `lex_le` order.
pub open spec fn sort_lex(s: Seq<Seq<char>>) -> Seq<Seq<char>>
    decreases s.len(),
{
    if s.len() == 0 {
        Seq::empty()
    } else {
        insert_sorted(s.last(), sort_lex(s.drop_last()))
    }
}

/// `items` joined into one character sequence with `sep` between entries.
pub open spec fn joined(items: Seq<Seq<char>>, sep: Seq<char>) -> Seq<char>
    decreases items.len(),
{
    if items.len() == 0 {
        Seq::empty()
    } else if items.len() == 1 {
        items[0]
    } else {
        joined(items.drop_last(), sep) + sep + items.last()
    }
}

/// Where `x` belongs in `s`: the first position whose entry `x` sorts at or
/// before. If the scan stopped at `j`, `insert_sorted` places `x` exactly
/// there.
proof fn lemma_insert_sorted_at(x: Seq<char>, s: Seq<Seq<char>>, j: int)
    requires
        0 <= j <= s.len(),
        forall|t: int| 0 <= t < j ==> !lex_le(x, #[trigger] s[t]),
        j < s.len() ==> lex_le(x, s[j]),
    ensures
        insert_sorted(x, s) == s.take(j) + seq![x] + s.skip(j),
    decreases j,
{
    if j == 0 {
        if s.len() == 0 {
            assert(insert_sorted(x, s) =~= s.take(0) + seq![x] + s.skip(0));
        } else {
            assert(insert_sorted(x, s) =~= s.take(0) + seq![x] + s.skip(0));
        }
    } else {
        lemma_insert_sorted_at(x, s.drop_first(), j - 1);
        assert(s.drop_first().take(j - 1) =~= s.take(j).drop_first());
        assert(s.drop_first().skip(j - 1) =~= s.skip(j));
        assert(seq![s.first()] + (s.drop_first().take(j - 1) + seq![x] + s.drop_first().skip(j - 1))
            =~= s.take(j) + seq![x] + s.skip(j));
    }
}

/// Insert one string into a vector at its sorted position.
fn insert_lex(out: &mut Vec<String>, x: String)
    ensures
        final(out).deep_view() == insert_sorted(x@, old(out).deep_view()),
{
    let ghost s = old(out).deep_view();
    let mut j: usize = 0;
    loop
        invariant
            0 <= j <= out.len(),
            *out == *old(out),
            s == out.deep_view(),
            s.len() == out.len(),
            forall|t: int| 0 <= t < j ==> !lex_le(x@, #[trigger] s[t]),
        ensures
            0 <= j <= out.len(),
            *out == *old(out),
            forall|t: int| 0 <= t < j ==> !lex_le(x@, #[trigger] s[t]),
            j < out.len() ==> lex_le(x@, s[j as int]),
        decreases out.len() - j,
    {
        if j == out.len() {
            break;
        }
        proof {
            assert(s[j as int] == out[j as int]@);
        }
        if str_le(x.as_str(), out[j].as_str()) {
            break;
        }
        j = j + 1;
    }
    proof {
        lemma_insert_sorted_at(x@, s, j as int);
    }
    out.insert(j, x);
    proof {
        assert(final(out).deep_view() =~= s.take(j as int) + seq![x@] + s.skip(j as int));
    }
}

/// Sort a vector of strings in `lex_le` order (insertion sort).
pub fn sort_strings(v: &mut Vec<String>)
    ensures
        final(v).deep_view() == sort_lex(old(v).deep_view()),
{
    let ghost s = old(v).deep_view();
    let mut out: Vec<String> = Vec::new();
    let mut i: usize = 0;
    proof {
        assert(out.deep_view() =~= sort_lex(s.take(0)));
    }
    while i < v.len()
        invariant
            0 <= i <= v.len(),
            *v == *old(v),
            s == v.deep_view(),
            s.len() == v.len(),
            out.deep_view() == sort_lex(s.take(i as int)),
        decreases v.len() - i,
    {
        let x = v[i].clone();
        proof {
            assert(s[i as int] == v[i as int]@);
        }
        insert_lex(&mut out, x);
        proof {
            assert(s.take(i + 1).drop_last() =~= s.take(i as int));
            assert(s.take(i + 1).last() == s[i as int]);
        }
        i = i + 1;
    }
    proof {
        assert(s.take(v@.len() as int) =~= s);
    }
    *v = out;
}

/// Join a vector of strings with `sep` between entries.
pub fn join_strings(items: &Vec<String>, sep: &str) -> (r: String)
    ensures
        r@ == joined(items.deep_view(), sep@),
{
    let ghost s = items.deep_view();
    let mut r = String::new();
    let mut i: usize = 0;
    while i < items.len()
        invariant
            0 <= i <= items.len(),
            s == items.deep_view(),
            s.len() == items.len(),
            r@ == joined(s.take(i as int), sep@),
        decreases items.len() - i,
    {
        if i > 0 {
            r.append(sep);
        }
        r.append(items[i].as_str());
        proof {
            assert(s[i as int] == items[i as int]@);
            assert(s.take(i + 1).drop_last() =~= s.take(i as int));
            assert(s.take(i + 1).last() == s[i as int]);
            if i == 0 {
                assert(joined(s.take(1), sep@) == s[0]);
            }
        }
        i = i + 1;
    }
    proof {
        assert(s.take(items@.len() as int) =~= s);
    }
    r
}

/// A bus consumer that answers `!`-prefixed chat commands. Implementations
/// state their behaviour as the two spec functions; the executable methods
/// are held to them.
pub trait IrcCommander: Sized {
    /// The command words this commander advertises for the help line.
    spec fn commands_spec(&self) -> Seq<Seq<char>>;

    /// The reply texts this commander gives to `cmd` with the word segments
    /// that followed it; `None` when it does not handle `cmd`.
    spec fn response_spec(&self, cmd: Seq<char>, words: Seq<Seq<char>>) -> Option<Seq<Seq<char>>>;

    fn get_commands(&self) -> (r: Vec<String>)
        ensures
            r.deep_view() == self.commands_spec(),
    ;

    fn handle_msg(&mut self, cmd: &str, words: &Vec<String>) -> (r: Option<Vec<String>>)
        ensures
            match r {
                Some(v) => old(self).response_spec(cmd@, words.deep_view()) == Some(v.deep_view()),
                None => old(self).response_spec(cmd@, words.deep_view()) is None,
            },
    ;
}

/// The commands the hard-coded commander handles, in its advertised order.
pub open spec fn hard_coded_commands() -> Seq<Seq<char>> {
    seq!["meow"@, "project"@, "shoutout"@, "so"@, "woof"@]
}

/// One shoutout link per word segment that is not a single space.
pub open spec fn shoutout_links(words: Seq<Seq<char>>) -> Seq<Seq<char>>
    decreases words.len(),
{
    if words.len() == 0 {
        Seq::empty()
    } else {
        let init = shoutout_links(words.drop_last());
        if words.last() == " "@ {
            init
        } else {
            init.push("https://twitch.tv/"@ + words.last())
        }
    }
}

/// What the hard-coded commander replies to each command it knows.
pub open spec fn hard_coded_response(cmd: Seq<char>, words: Seq<Seq<char>>) -> Option<
    Seq<Seq<char>>,
> {
    if cmd == "project"@ {
        Some(seq!["https://github.com/waynr/twitchy-mcbotface"@])
    } else if cmd == "meow"@ {
        Some(seq!["woof"@])
    } else if cmd == "woof"@ {
        Some(seq!["meow"@])
    } else if cmd == "so"@ || cmd == "shoutout"@ {
        Some(shoutout_links(words))
    } else {
        None
    }
}

/// A commander with a fixed command set.
pub struct HardCodedCommander {
    static_commands_file: String,
}

impl HardCodedCommander {
    /// The path this commander was configured with (reserved for a future
    /// file-backed command set).
    pub closed spec fn commands_file(&self) -> Seq<char> {
        self.static_commands_file@
    }

    pub fn new(static_commands_file: String) -> (r: HardCodedCommander)
        ensures
            r.commands_file() == static_commands_file@,
    {
        HardCodedCommander { static_commands_file }
    }
}

impl IrcCommander for HardCodedCommander {
    open spec fn commands_spec(&self) -> Seq<Seq<char>> {
        hard_coded_commands()
    }

    open spec fn response_spec(&self, cmd: Seq<char>, words: Seq<Seq<char>>) -> Option<
        Seq<Seq<char>>,
    > {
        hard_coded_response(cmd, words)
    }

    fn get_commands(&self) -> (r: Vec<String>) {
        let mut r: Vec<String> = Vec::new();
        r.push(String::from_str("meow"));
        r.push(String::from_str("project"));
        r.push(String::from_str("shoutout"));
        r.push(String::from_str("so"));
        r.push(String::from_str("woof"));
        proof {
            assert(r.deep_view() =~= hard_coded_commands());
        }
        r
    }

    fn handle_msg(&mut self, cmd: &str, words: &Vec<String>) -> (r: Option<Vec<String>>) {
        if str_eq(cmd, "project") {
            let mut v: Vec<String> = Vec::new();
            v.push(String::from_str("https://github.com/waynr/twitchy-mcbotface"));
            proof {
                assert(v.deep_view() =~= seq!["https://github.com/waynr/twitchy-mcbotface"@]);
            }
            Some(v)
        } else if str_eq(cmd, "meow") {
            let mut v: Vec<String> = Vec::new();
            v.push(String::from_str("woof"));
            proof {
                assert(v.deep_view() =~= seq!["woof"@]);
            }
            Some(v)
        } else if str_eq(cmd, "woof") {
            let mut v: Vec<String> = Vec::new();
            v.push(String::from_str("meow"));
            proof {
                assert(v.deep_view() =~= seq!["meow"@]);
            }
            Some(v)
        } else if str_eq(cmd, "so") || str_eq(cmd, "shoutout") {
            let ghost ws = words.deep_view();
            let mut v: Vec<String> = Vec::new();
            let mut i: usize = 0;
            proof {
                assert(v.deep_view() =~= shoutout_links(ws.take(0)));
            }
            while i < words.len()
                invariant
                    0 <= i <= words.len(),
                    ws == words.deep_view(),
                    ws.len() == words.len(),
                    v.deep_view() == shoutout_links(ws.take(i as int)),
                decreases words.len() - i,
            {
                proof {
                    assert(ws[i as int] == words[i as int]@);
                    assert(ws.take(i + 1).drop_last() =~= ws.take(i as int));
                    assert(ws.take(i + 1).last() == ws[i as int]);
                }
                if !str_eq(words[i].as_str(), " ") {
                    let url = String::from_str("https://twitch.tv/").concat(words[i].as_str());
                    let ghost before = v.deep_view();
                    v.push(url);
                    proof {
                        assert(v.deep_view() =~= before.push("https://twitch.tv/"@ + ws[i as int]));
                    }
                }
                i = i + 1;
            }
            proof {
                assert(ws.take(words@.len() as int) =~= ws);
            }
            Some(v)
        } else {
            None
        }
    }
}

/// The concatenation of every commander's advertised commands, in order.
pub open spec fn all_commands<C: IrcCommander>(commanders: Seq<C>) -> Seq<Seq<char>>
    decreases commanders.len(),
{
    if commanders.len() == 0 {
        Seq::empty()
    } else {
        all_commands(commanders.drop_last()) + commanders.last().commands_spec()
    }
}

/// The reply of the first commander that handles `cmd`; empty when none does.
pub open spec fn first_response<C: IrcCommander>(
    commanders: Seq<C>,
    cmd: Seq<char>,
    words: Seq<Seq<char>>,
) -> Seq<Seq<char>>
    decreases commanders.len(),
{
    if commanders.len() == 0 {
        Seq::empty()
    } else {
        match commanders.first().response_spec(cmd, words) {
            Some(texts) => texts,
            None => first_response(commanders.drop_first(), cmd, words),
        }
    }
}

/// The reply texts the composed commanders give to one chat line: nothing
/// unless the line opens with a `!` segment followed by a command word; for
/// `help`, the sorted, comma-joined union of all advertised commands; then
/// the first handling commander's reply.
pub open spec fn response_texts<C: IrcCommander>(
    commanders: Seq<C>,
    words: Seq<Seq<char>>,
) -> Seq<Seq<char>> {
    if words.len() < 2 || words[0] != "!"@ {
        Seq::empty()
    } else {
        let cmd = words[1];
        let rest = words.skip(2);
        let help = if cmd == "help"@ {
            seq![joined(sort_lex(all_commands(commanders)), ", "@)]
        } else {
            Seq::empty()
        };
        help + first_response(commanders, cmd, rest)
    }
}

/// Drives a set of commanders as one bus consumer: reads chat lines through
/// its dispatcher, parses the `!command` prefix, and publishes the
/// commanders' replies back to the originating channel.
pub struct CommanderComposer<C: IrcCommander> {
    pub dispatcher: MessageDispatcher,
    pub commanders: Vec<C>,
}

impl<C: IrcCommander> CommanderComposer<C> {
    pub fn new(dispatcher: MessageDispatcher, commanders: Vec<C>) -> (r: CommanderComposer<C>)
        ensures
            r.dispatcher == dispatcher,
            r.commanders == commanders,
    {
        CommanderComposer { dispatcher, commanders }
    }

    /// The replies to one inbound event, as chat messages for the channel the
    /// event came from: one per reply text of the composed commanders. Events
    /// that are not chat messages get no reply.
    pub fn respond(&mut self, event: &InboundEvent) -> (r: Vec<ChatMessage>)
        ensures
            final(self).dispatcher == old(self).dispatcher,
            final(self).commanders@.len() == old(self).commanders@.len(),
            match *event {
                InboundEvent::Chat { ref channel, ref text, .. } => {
                    let texts = response_texts(old(self).commanders@, word_bounds_of(text@));
                    &&& r@.len() == texts.len()
                    &&& forall|j: int|
                        0 <= j < r@.len() ==> (#[trigger] r@[j]).channel@ == channel@ && r@[j].message@
                            == texts[j]
                },
                _ => r@.len() == 0,
            },
    {
        let mut r: Vec<ChatMessage> = Vec::new();
        let (channel, text): (&String, &String) = match event {
            InboundEvent::Chat { channel, sender: _, text } => (channel, text),
            _ => {
                return r;
            },
        };
        let words = split_word_bounds(text.as_str());
        let ghost wv = words.deep_view();
        let ghost texts = response_texts(old(self).commanders@, word_bounds_of(text@));
        if words.len() < 2 {
            return r;
        }
        proof {
            assert(wv[0] == words[0]@);
        }
        if !str_eq(words[0].as_str(), "!") {
            return r;
        }
        let cmd = words[1].clone();
        proof {
            assert(wv[1] == words[1]@);
        }
        // the word segments after the command, handed to the commanders
        let mut rest: Vec<String> = Vec::new();
        let mut i: usize = 2;
        proof {
            assert(rest.deep_view() =~= wv.subrange(2, 2));
        }
        while i < words.len()
            invariant
                2 <= i <= words.len(),
                wv == words.deep_view(),
                wv.len() == words.len(),
                rest.deep_view() == wv.subrange(2, i as int),
            decreases words.len() - i,
        {
            let ghost before = rest.deep_view();
            rest.push(words[i].clone());
            proof {
                assert(wv[i as int] == words[i as int]@);
                assert(rest.deep_view() =~= before.push(wv[i as int]));
                assert(wv.subrange(2, i + 1) =~= wv.subrange(2, i as int).push(wv[i as int]));
            }
            i = i + 1;
        }
        proof {
            assert(wv.subrange(2, wv.len() as int) =~= wv.skip(2));
        }
        if str_eq(cmd.as_str(), "help") {
            let mut commands: Vec<String> = Vec::new();
            let mut k: usize = 0;
            proof {
                assert(commands.deep_view() =~= all_commands(self.commanders@.take(0)));
            }
            while k < self.commanders.len()
                invariant
                    0 <= k <= self.commanders.len(),
                    *self == *old(self),
                    commands.deep_view() == all_commands(self.commanders@.take(k as int)),
                decreases self.commanders.len() - k,
            {
                let mut cs = self.commanders[k].get_commands();
                let ghost before = commands.deep_view();
                commands.append(&mut cs);
                proof {
                    assert(self.commanders@.take(k + 1).drop_last() =~= self.commanders@.take(
                        k as int,
                    ));
                    assert(self.commanders@.take(k + 1).last() == self.commanders@[k as int]);
                    assert(commands.deep_view() =~= before + self.commanders@[
                        k as int
                    ].commands_spec());
                }
                k = k + 1;
            }
            proof {
                assert(self.commanders@.take(self.commanders@.len() as int) =~= self.commanders@);
            }
            sort_strings(&mut commands);
            let help_line = join_strings(&commands, ", ");
            r.push(ChatMessage { channel: channel.clone(), message: help_line });
        }
        let ghost help_len: int = r@.len() as int;
        let ghost r_before = r@;
        let ghost firsts = first_response(old(self).commanders@, cmd@, wv.skip(2));
        let mut k: usize = 0;
        loop
            invariant_except_break
                r@ == r_before,
                forall|t: int|
                    k <= t < self.commanders@.len() ==> self.commanders@[t] == old(
                        self,
                    ).commanders@[t],
            invariant
                0 <= k <= self.commanders.len(),
                self.commanders@.len() == old(self).commanders@.len(),
                self.dispatcher == old(self).dispatcher,
                2 <= wv.len(),
                cmd@ == wv[1],
                rest.deep_view() == wv.skip(2),
                r_before.len() == help_len,
                firsts == first_response(old(self).commanders@, cmd@, wv.skip(2)),
                forall|j: int|
                    0 <= j < help_len ==> (#[trigger] r_before[j]).channel@ == channel@,
                forall|t: int|
                    0 <= t < k ==> old(self).commanders@[t].response_spec(cmd@, wv.skip(2))
                        is None,
            ensures
                self.commanders@.len() == old(self).commanders@.len(),
                self.dispatcher == old(self).dispatcher,
                r@.len() == help_len + firsts.len(),
                forall|j: int|
                    help_len <= j < r@.len() ==> (#[trigger] r@[j]).channel@ == channel@
                        && r@[j].message@ == firsts[j - help_len],
                forall|j: int| 0 <= j < help_len ==> #[trigger] r@[j] == r_before[j],
            decreases self.commanders.len() - k,
        {
            if k == self.commanders.len() {
                proof {
                    lemma_first_response_none(old(self).commanders@, cmd@, wv.skip(2));
                }
                break;
            }
            let ghost before_iter = self.commanders@;
            let mut c = self.commanders.remove(k);
            let ghost c0 = c;
            let resp = c.handle_msg(cmd.as_str(), &rest);
            self.commanders.insert(k, c);
            proof {
                assert(c0 == old(self).commanders@[k as int]);
                assert(self.commanders@ =~= before_iter.update(k as int, c));
            }
            match resp {
                Some(msgs) => {
                    proof {
                        lemma_first_response_at(old(self).commanders@, cmd@, wv.skip(2), k as int);
                        assert(msgs.deep_view() == firsts);
                    }
                    let ghost rv0 = r@;
                    let mut t: usize = 0;
                    while t < msgs.len()
                        invariant
                            0 <= t <= msgs.len(),
                            msgs.deep_view() == firsts,
                            firsts.len() == msgs.len(),
                            r@.len() == rv0.len() + t,
                            forall|j: int| 0 <= j < rv0.len() ==> r@[j] == rv0[j],
                            forall|j: int|
                                rv0.len() <= j < r@.len() ==> (#[trigger] r@[j]).channel@
                                    == channel@ && r@[j].message@ == firsts[j - rv0.len()],
                        decreases msgs.len() - t,
                    {
                        proof {
                            assert(msgs.deep_view()[t as int] == msgs[t as int]@);
                        }
                        r.push(ChatMessage { channel: channel.clone(), message: msgs[t].clone() });
                        t = t + 1;
                    }
                    break;
                },
                None => {
                    k = k + 1;
                },
            }
        }
        proof {
            assert(r@.len() == texts.len());
            assert forall|j: int| 0 <= j < r@.len() implies (#[trigger] r@[j]).channel@ == channel@
                && r@[j].message@ == texts[j] by {
                if j < help_len {
                    assert(texts[j] == joined(
                        sort_lex(all_commands(old(self).commanders@)),
                        ", "@,
                    ));
                } else {
                    assert(texts[j] == firsts[j - help_len]);
                }
            }
        }
        r
    }

    /// One full consumer step: answer `event` and queue every reply on the
    /// request channel, bound for the channel the event came from, in reply
    /// order. On a bus that has shut down nothing is queued; replies past an
    /// exhausted request sequence number are dropped.
    pub fn handle_event(&mut self, requests: &mut RequestChannel, event: &InboundEvent)
        requires
            old(requests).wf(),
        ensures
            final(requests).wf(),
            final(requests).is_closed() == old(requests).is_closed(),
            final(requests).capacity() == old(requests).capacity(),
            final(requests).cursor() == old(requests).cursor(),
            final(self).dispatcher == old(self).dispatcher,
            final(self).commanders@.len() == old(self).commanders@.len(),
            old(requests).is_closed() ==> *final(requests) == *old(requests),
            match *event {
                InboundEvent::Chat { ref channel, ref text, .. } => {
                    let texts = response_texts(old(self).commanders@, word_bounds_of(text@));
                    (!old(requests).is_closed() && old(requests).seq_no() + texts.len()
                        <= usize::MAX) ==> {
                        &&& final(requests).seq_no() == old(requests).seq_no() + texts.len()
                        &&& final(requests).history().take(old(requests).seq_no())
                            == old(requests).history()
                        &&& forall|j: int|
                            old(requests).seq_no() <= j < final(requests).seq_no()
                                ==> ((#[trigger] final(requests).history()[j])
                                matches ComponentMessage::Chat(m) && m.channel@ == channel@
                                && m.message@ == texts[j - old(requests).seq_no()])
                    }
                },
                _ => *final(requests) == *old(requests),
            },
    {
        let ghost req0 = *requests;
        proof {
            req0.model_facts();
            assert(req0.history().take(req0.seq_no()) =~= req0.history());
        }
        let replies = self.respond(event);
        let mut i: usize = 0;
        while i < replies.len()
            invariant
                0 <= i <= replies.len(),
                req0.wf(),
                requests.wf(),
                requests.is_closed() == req0.is_closed(),
                requests.capacity() == req0.capacity(),
                requests.cursor() == req0.cursor(),
                req0.is_closed() ==> *requests == req0,
                replies@.len() == 0 ==> *requests == req0,
                forall|j: int|
                    0 <= j < replies@.len() ==> (#[trigger] replies@[j]).channel@
                        == replies@[0].channel@,
                (!req0.is_closed() && req0.seq_no() + replies@.len() <= usize::MAX) ==> {
                    &&& requests.seq_no() == req0.seq_no() + i
                    &&& requests.history().take(req0.seq_no()) == req0.history()
                    &&& forall|j: int|
                        req0.seq_no() <= j < requests.seq_no() ==> ((#[trigger] requests.history()[
                            j
                        ]) matches ComponentMessage::Chat(m) && m.channel@ == replies@[0].channel@
                            && m.message@ == replies@[j - req0.seq_no()].message@)
                },
            decreases replies.len() - i,
        {
            if requests.sent() < usize::MAX {
                let ghost before = *requests;
                let reply = replies[i].clone();
                let outcome = requests.send(ComponentMessage::Chat(reply));
                proof {
                    req0.model_facts();
                    before.model_facts();
                    requests.model_facts();
                    if !req0.is_closed() && req0.seq_no() + replies@.len() <= usize::MAX {
                        assert(outcome is Ok);
                        assert(requests.history().take(req0.seq_no()) =~= before.history().take(
                            req0.seq_no(),
                        ));
                    }
                }
            }
            i = i + 1;
        }
        proof {
            if !(*event matches InboundEvent::Chat { .. }) {
                assert(replies@.len() == 0);
                assert(i == 0);
            }
        }
    }

    /// Publish one chat reply to the request channel, bound for `channel`.
    pub fn send_msg(&self, requests: &mut RequestChannel, channel: &str, message: &str) -> (r:
        Result<(), Error>)
        requires
            old(requests).wf(),
            old(requests).seq_no() < usize::MAX,
        ensures
            final(requests).wf(),
            final(requests).is_closed() == old(requests).is_closed(),
            final(requests).capacity() == old(requests).capacity(),
            final(requests).cursor() == old(requests).cursor(),
            match r {
                Ok(()) => {
                    &&& !old(requests).is_closed()
                    &&& final(requests).seq_no() == old(requests).seq_no() + 1
                    &&& final(requests).history().drop_last() == old(requests).history()
                    &&& final(requests).history().last() matches ComponentMessage::Chat(m)
                        && m.channel@ == channel@ && m.message@ == message@
                },
                Err(e) => {
                    &&& e == Error::ChannelClosed
                    &&& old(requests).is_closed()
                    &&& *final(requests) == *old(requests)
                },
            },
    {
        let msg = ComponentMessage::Chat(
            ChatMessage { channel: String::from_str(channel), message: String::from_str(message) },
        );
        let r = requests.send(msg);
        proof {
            if r is Ok {
                assert(final(requests).history().drop_last() =~= old(requests).history());
            }
        }
        r
    }
}

/// When no commander handles `cmd`, the composed reply is empty.
proof fn lemma_first_response_none<C: IrcCommander>(
    commanders: Seq<C>,
    cmd: Seq<char>,
    words: Seq<Seq<char>>,
)
    requires
        forall|t: int| 0 <= t < commanders.len() ==> commanders[t].response_spec(cmd, words) is None,
    ensures
        first_response(commanders, cmd, words) == Seq::<Seq<char>>::empty(),
    decreases commanders.len(),
{
    if commanders.len() > 0 {
        lemma_first_response_none(commanders.drop_first(), cmd, words);
    }
}

/// When the commanders before `k` decline and the one at `k` answers, the
/// composed reply is exactly that answer.
proof fn lemma_first_response_at<C: IrcCommander>(
    commanders: Seq<C>,
    cmd: Seq<char>,
    words: Seq<Seq<char>>,
    k: int,
)
    requires
        0 <= k < commanders.len(),
        forall|t: int| 0 <= t < k ==> commanders[t].response_spec(cmd, words) is None,
        commanders[k].response_spec(cmd, words) is Some,
    ensures
        first_response(commanders, cmd, words) == commanders[k].response_spec(
            cmd,
            words,
        ).unwrap(),
    decreases k,
{
    if k > 0 {
        lemma_first_response_at(commanders.drop_first(), cmd, words, k - 1);
    }
}

} // verus!
