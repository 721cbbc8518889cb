use vstd::prelude::*;
use vstd::string::*;

use crate::text::{
    chars_of, copy_texts, is_blank, join_with, lemma_split_join, lemma_trim_keeps_unpadded,
    split_on, texts, trim, trim_bounds,
};

verus! {

/// The mathematical value of a [`ClientCommand`].
pub struct CommandView {
    pub targets: Seq<Seq<char>>,
    pub payload: Seq<char>,
}

/// An operator command: the identifiers of the devices it is meant for
/// (none means every device) and the text to deliver.
#[derive(Debug)]
pub struct ClientCommand {
    pub targets: Vec<String>,
    pub payload: String,
}

/// The word that stands for "every device" in the command text.
pub open spec fn all_word() -> Seq<char> {
    seq!['A', 'L', 'L']
}

impl View for ClientCommand {
    type V = CommandView;

    open spec fn view(&self) -> CommandView {
        CommandView { targets: texts(self.targets@), payload: self.payload@ }
    }
}

/// Whether a command is delivered to the device `id`.
pub open spec fn targets_device(c: CommandView, id: Seq<char>) -> bool {
    c.targets.len() == 0 || c.targets.contains(id)
}

/// The trimmed, non-empty pieces among `pieces`, in order.
pub open spec fn identifiers(pieces: Seq<Seq<char>>) -> Seq<Seq<char>>
    decreases pieces.len(),
{
    if pieces.len() == 0 {
        Seq::<Seq<char>>::empty()
    } else {
        let rest = identifiers(pieces.drop_last());
        let t = trim(pieces.last());
        if t.len() > 0 {
            rest.push(t)
        } else {
            rest
        }
    }
}

/// The targets named by the text before the first `:`: none for an empty
/// list or for `ALL`, otherwise the comma-separated identifiers, trimmed,
/// with empty ones left out.
pub open spec fn target_list(head: Seq<char>) -> Seq<Seq<char>> {
    if trim(head) == all_word() {
        Seq::<Seq<char>>::empty()
    } else {
        identifiers(split_on(head, ','))
    }
}

/// `i` is the position of the first `:` in `s`.
pub open spec fn is_first_colon(s: Seq<char>, i: int) -> bool {
    &&& 0 <= i < s.len()
    &&& s[i] == ':'
    &&& forall|k: int| 0 <= k < i ==> s[k] != ':'
}

/// The command that the text `s` denotes: `targets:payload`, split at the
/// first `:`; text without `:` is a broadcast of the whole text.
pub open spec fn parse_spec(s: Seq<char>) -> CommandView {
    if s.contains(':') {
        let i: int = choose|i: int| is_first_colon(s, i);
        CommandView { targets: target_list(s.subrange(0, i)), payload: s.subrange(i + 1, s.len() as int) }
    } else {
        CommandView { targets: Seq::<Seq<char>>::empty(), payload: s }
    }
}

/// The canonical text of a command: the targets joined by `,` (or `ALL`
/// when there are none), a `:`, then the payload.
pub open spec fn serialize_spec(c: CommandView) -> Seq<char> {
    let head = if c.targets.len() == 0 {
        all_word()
    } else {
        join_with(c.targets, ',')
    };
    head.push(':') + c.payload
}

/// A device identifier that the command text can carry unchanged: not
/// empty, without `,` or `:`, not padded with white space, and not the word
/// `ALL`.
pub open spec fn is_identifier(t: Seq<char>) -> bool {
    &&& t.len() > 0
    &&& !t.contains(',')
    &&& !t.contains(':')
    &&& !is_blank(t[0])
    &&& !is_blank(t.last())
    &&& t != all_word()
}

impl ClientCommand {
    /// A command for the single device `target`, or for every device when
    /// `target` is `None`.
    pub fn new(target: Option<String>, command: String) -> (r: ClientCommand)
        ensures
            r@.payload == command@,
            target is None ==> r@.targets.len() == 0,
            target matches Some(t) ==> r@.targets == seq![t@],
    {
        let mut targets: Vec<String> = Vec::new();
        match target {
            Some(t) => {
                targets.push(t);
            },
            None => {},
        }
        let r = ClientCommand { targets, payload: command };
        assert(r@.targets =~= texts(r.targets@));
        r
    }

    /// A command for every device.
    pub fn new_broadcast(command: String) -> (r: ClientCommand)
        ensures
            r@.payload == command@,
            r@.targets.len() == 0,
    {
        ClientCommand { targets: Vec::new(), payload: command }
    }

    /// A command for the devices named in `targets` (every device when the
    /// list is empty).
    pub fn with_targets(targets: Vec<String>, payload: String) -> (r: ClientCommand)
        ensures
            r@.targets == texts(targets@),
            r@.payload == payload@,
    {
        ClientCommand { targets, payload }
    }

    /// Whether the command is for every device.
    pub fn is_broadcast(&self) -> (r: bool)
        ensures
            r == (self@.targets.len() == 0),
    {
        self.targets.len() == 0
    }

    /// Whether the command is to be delivered to the device `id`.
    pub fn is_targeted(&self, id: &str) -> (r: bool)
        ensures
            r == targets_device(self@, id@),
    {
        if self.targets.len() == 0 {
            return true;
        }
        let wanted = String::from_str(id);
        let mut i: usize = 0;
        while i < self.targets.len()
            invariant
                0 <= i <= self.targets@.len(),
                wanted@ == id@,
                forall|k: int| 0 <= k < i ==> self.targets@[k]@ != id@,
            decreases self.targets@.len() - i,
        {
            if self.targets[i] == wanted {
                assert(self@.targets[i as int] == id@);
                return true;
            }
            i = i + 1;
        }
        assert(!self@.targets.contains(id@)) by {
            if self@.targets.contains(id@) {
                let k: int = choose|k: int| 0 <= k < self@.targets.len() && self@.targets[k] == id@;
                assert(self.targets@[k]@ == id@);
            }
        }
        false
    }

    /// A copy of this command.
    pub fn duplicate(&self) -> (r: ClientCommand)
        ensures
            r@ == self@,
    {
        ClientCommand { targets: copy_texts(&self.targets), payload: self.payload.clone() }
    }

    /// The canonical text of the command, which [`parse_command`] reads back.
    pub fn serialize(&self) -> (r: String)
        ensures
            r@ == serialize_spec(self@),
    {
        let mut out = String::new();
        let ghost ts = self@.targets;
        proof {
            reveal_strlit("ALL");
            reveal_strlit(",");
            reveal_strlit(":");
        }
        if self.targets.len() == 0 {
            out.append("ALL");
            assert(out@ =~= all_word());
        } else {
            let mut i: usize = 0;
            while i < self.targets.len()
                invariant
                    0 <= i <= self.targets@.len(),
                    ts == self@.targets,
                    ","@ == seq![','],
                    i > 0 ==> out@ == join_with(ts.subrange(0, i as int), ','),
                    i == 0 ==> out@.len() == 0,
                decreases self.targets@.len() - i,
            {
                let ghost before = out@;
                if i > 0 {
                    out.append(",");
                }
                out.append(self.targets[i].as_str());
                proof {
                    let sub = ts.subrange(0, i + 1);
                    assert(sub.last() == ts[i as int]);
                    if i > 0 {
                        assert(sub.drop_last() =~= ts.subrange(0, i as int));
                        assert(out@ =~= before.push(',') + ts[i as int]);
                    } else {
                        assert(out@ =~= ts[0]);
                    }
                }
                i = i + 1;
            }
            assert(ts.subrange(0, i as int) =~= ts);
        }
        out.append(":");
        out.append(self.payload.as_str());
        assert(out@ =~= serialize_spec(self@));
        out
    }
}

impl Clone for ClientCommand {
    fn clone(&self) -> (r: ClientCommand)
        ensures
            r@ == self@,
    {
        self.duplicate()
    }
}

/// Appends the trimmed text of `cs[lo..hi]` to `out` when it is not empty.
fn push_identifier(s: &str, cs: &Vec<char>, lo: usize, hi: usize, out: &mut Vec<String>)
    requires
        cs@ == s@,
        lo <= hi <= cs@.len(),
    ensures
        trim(cs@.subrange(lo as int, hi as int)).len() > 0 ==> texts(final(out)@) == texts(
            old(out)@,
        ).push(trim(cs@.subrange(lo as int, hi as int))),
        trim(cs@.subrange(lo as int, hi as int)).len() == 0 ==> texts(final(out)@) == texts(
            old(out)@,
        ),
{
    let (a, b) = trim_bounds(cs, lo, hi);
    if a < b {
        let t = String::from_str(s.substring_char(a, b));
        out.push(t);
        assert(texts(out@) =~= texts(old(out)@).push(trim(cs@.subrange(lo as int, hi as int))));
    }
}

/// The identifiers in the comma-separated list `cs[0..hi]`.
fn collect_identifiers(s: &str, cs: &Vec<char>, hi: usize) -> (r: Vec<String>)
    requires
        cs@ == s@,
        hi <= cs@.len(),
    ensures
        texts(r@) == identifiers(split_on(cs@.subrange(0, hi as int), ',')),
{
    let mut out: Vec<String> = Vec::new();
    let mut start: usize = 0;
    let mut j: usize = 0;
    proof {
        assert(cs@.subrange(0, 0) =~= Seq::<char>::empty());
        assert(split_on(cs@.subrange(0, 0), ',') =~= seq![Seq::<char>::empty()]);
        assert(split_on(cs@.subrange(0, 0), ',').drop_last() =~= Seq::<Seq<char>>::empty());
        assert(texts(out@) =~= Seq::<Seq<char>>::empty());
    }
    while j < hi
        invariant
            cs@ == s@,
            hi <= cs@.len(),
            0 <= start <= j <= hi,
            split_on(cs@.subrange(0, j as int), ',').len() >= 1,
            split_on(cs@.subrange(0, j as int), ',').last() == cs@.subrange(start as int, j as int),
            texts(out@) == identifiers(split_on(cs@.subrange(0, j as int), ',').drop_last()),
        decreases hi - j,
    {
        let ghost p = split_on(cs@.subrange(0, j as int), ',');
        let ghost prefix = cs@.subrange(0, j + 1);
        proof {
            assert(prefix.drop_last() =~= cs@.subrange(0, j as int));
            assert(prefix.last() == cs@[j as int]);
        }
        if cs[j] == ',' {
            push_identifier(s, cs, start, j, &mut out);
            proof {
                let q = split_on(prefix, ',');
                assert(q == p.push(Seq::<char>::empty()));
                assert(q.drop_last() =~= p);
                assert(identifiers(p) == (if trim(p.last()).len() > 0 {
                    identifiers(p.drop_last()).push(trim(p.last()))
                } else {
                    identifiers(p.drop_last())
                }));
                assert(cs@.subrange(j + 1, j + 1) =~= Seq::<char>::empty());
            }
            start = j + 1;
        } else {
            proof {
                let q = split_on(prefix, ',');
                assert(q == p.update(p.len() - 1, p.last().push(cs@[j as int])));
                assert(q.drop_last() =~= p.drop_last());
                assert(cs@.subrange(start as int, j + 1) =~= p.last().push(cs@[j as int]));
            }
        }
        j = j + 1;
    }
    let ghost p = split_on(cs@.subrange(0, hi as int), ',');
    push_identifier(s, cs, start, hi, &mut out);
    proof {
        assert(identifiers(p) == (if trim(p.last()).len() > 0 {
            identifiers(p.drop_last()).push(trim(p.last()))
        } else {
            identifiers(p.drop_last())
        }));
    }
    out
}

/// Reads a command from its text form `targets:payload` (see [`parse_spec`]).
pub fn parse_command(input: &str) -> (r: ClientCommand)
    ensures
        r@ == parse_spec(input@),
{
    let cs = chars_of(input);
    let n: usize = cs.len();
    let mut i: usize = 0;
    while i < n && cs[i] != ':'
        invariant
            cs@ == input@,
            n == cs@.len(),
            0 <= i <= n,
            forall|k: int| 0 <= k < i ==> cs@[k] != ':',
        decreases n - i,
    {
        i = i + 1;
    }
    if i == n {
        assert(!input@.contains(':'));
        let r = ClientCommand::new_broadcast(String::from_str(input));
        assert(r@.targets =~= Seq::<Seq<char>>::empty());
        return r;
    }
    proof {
        assert(is_first_colon(input@, i as int));
        let j: int = choose|j: int| is_first_colon(input@, j);
        assert(j == i);
    }
    let payload = String::from_str(input.substring_char(i + 1, n));
    let (a, b) = trim_bounds(&cs, 0, i);
    let targets = if b - a == 3 && cs[a] == 'A' && cs[a + 1] == 'L' && cs[b - 1] == 'L' {
        assert(cs@.subrange(a as int, b as int) =~= all_word());
        Vec::new()
    } else {
        assert(trim(cs@.subrange(0, i as int)) != all_word()) by {
            let w = cs@.subrange(a as int, b as int);
            if trim(cs@.subrange(0, i as int)) == all_word() {
                assert(w.len() == 3);
                assert(w[0] == cs@[a as int] && w[0] == 'A');
                assert(w[1] == cs@[a + 1] && w[1] == 'L');
                assert(w[2] == cs@[b - 1] && w[2] == 'L');
            }
        }
        collect_identifiers(input, &cs, i)
    };
    let r = ClientCommand::with_targets(targets, payload);
    assert(r@.targets =~= parse_spec(input@).targets);
    r
}

/// Reads a command from one line of operator input: the line without its
/// surrounding white space (and line break), read as by [`parse_command`].
pub fn parse_console_line(line: &str) -> (r: ClientCommand)
    ensures
        r@ == parse_spec(trim(line@)),
{
    let cs = chars_of(line);
    let (a, b) = trim_bounds(&cs, 0, cs.len());
    assert(cs@.subrange(0, cs@.len() as int) =~= line@);
    parse_command(line.substring_char(a, b))
}

proof fn lemma_join_free(ts: Seq<Seq<char>>, sep: char, c: char)
    requires
        sep != c,
        forall|i: int| 0 <= i < ts.len() ==> !(#[trigger] ts[i]).contains(c),
    ensures
        !join_with(ts, sep).contains(c),
    decreases ts.len(),
{
    if ts.len() > 1 {
        let init = ts.drop_last();
        assert forall|i: int| 0 <= i < init.len() implies !(#[trigger] init[i]).contains(c) by {
            assert(init[i] == ts[i]);
        }
        lemma_join_free(init, sep, c);
        let j = join_with(ts, sep);
        let front = join_with(init, sep).push(sep);
        assert(!ts.last().contains(c)) by {
            assert(ts[ts.len() - 1] == ts.last());
        }
        assert forall|k: int| 0 <= k < j.len() implies j[k] != c by {
            if k < front.len() {
                assert(j[k] == front[k]);
                if k < front.len() - 1 {
                    assert(front[k] == join_with(init, sep)[k]);
                }
            } else {
                assert(j[k] == ts.last()[k - front.len()]);
            }
        }
    }
}

proof fn lemma_join_ends(ts: Seq<Seq<char>>, sep: char)
    requires
        ts.len() >= 1,
        forall|i: int| 0 <= i < ts.len() ==> (#[trigger] ts[i]).len() > 0,
    ensures
        join_with(ts, sep).len() > 0,
        join_with(ts, sep)[0] == ts[0][0],
        join_with(ts, sep).last() == ts.last().last(),
        ts.len() >= 2 ==> join_with(ts, sep).contains(sep),
    decreases ts.len(),
{
    if ts.len() > 1 {
        let init = ts.drop_last();
        assert forall|i: int| 0 <= i < init.len() implies (#[trigger] init[i]).len() > 0 by {
            assert(init[i] == ts[i]);
        }
        lemma_join_ends(init, sep);
        let front = join_with(init, sep).push(sep);
        let j = join_with(ts, sep);
        assert(ts.last().len() > 0) by {
            assert(ts[ts.len() - 1] == ts.last());
        }
        assert(j[0] == front[0]);
        assert(init[0] == ts[0]);
        assert(j.last() == ts.last().last());
        assert(j[front.len() - 1] == sep);
    }
}

proof fn lemma_identifiers_of_identifiers(ts: Seq<Seq<char>>)
    requires
        forall|i: int| 0 <= i < ts.len() ==> is_identifier(#[trigger] ts[i]),
    ensures
        identifiers(ts) == ts,
    decreases ts.len(),
{
    if ts.len() > 0 {
        let init = ts.drop_last();
        assert forall|i: int| 0 <= i < init.len() implies is_identifier(#[trigger] init[i]) by {
            assert(init[i] == ts[i]);
        }
        lemma_identifiers_of_identifiers(init);
        assert(is_identifier(ts[ts.len() - 1]));
        lemma_trim_keeps_unpadded(ts.last());
        assert(init.push(ts.last()) =~= ts);
    }
}

/// Reading back the canonical text of a command gives the same command, for
/// broadcasts and for commands whose targets are all identifiers.
pub proof fn lemma_parse_serialize(c: CommandView)
    requires
        forall|i: int| 0 <= i < c.targets.len() ==> is_identifier(#[trigger] c.targets[i]),
    ensures
        parse_spec(serialize_spec(c)) == c,
{
    let head = if c.targets.len() == 0 {
        all_word()
    } else {
        join_with(c.targets, ',')
    };
    let s = serialize_spec(c);
    let h: int = head.len() as int;
    assert(!head.contains(':')) by {
        if c.targets.len() == 0 {
            assert(head[0] != ':' && head[1] != ':' && head[2] != ':');
        } else {
            assert forall|i: int| 0 <= i < c.targets.len() implies !(
            #[trigger] c.targets[i]).contains(':') by {
                assert(is_identifier(c.targets[i]));
            }
            lemma_join_free(c.targets, ',', ':');
        }
    }
    assert(s[h] == ':');
    assert forall|k: int| 0 <= k < h implies s[k] != ':' by {
        assert(s[k] == head[k]);
    }
    assert(is_first_colon(s, h));
    assert(s.contains(':'));
    let i: int = choose|i: int| is_first_colon(s, i);
    assert(i == h) by {
        if i < h {
            assert(s[i] == head[i]);
        }
    }
    assert(s.subrange(0, h) =~= head);
    assert(s.subrange(h + 1, s.len() as int) =~= c.payload);
    if c.targets.len() == 0 {
        lemma_trim_keeps_unpadded(all_word());
        assert(c.targets =~= Seq::<Seq<char>>::empty());
    } else {
        assert forall|i: int| 0 <= i < c.targets.len() implies (#[trigger] c.targets[i]).len()
            > 0 by {
            assert(is_identifier(c.targets[i]));
        }
        assert forall|i: int| 0 <= i < c.targets.len() implies !(
        #[trigger] c.targets[i]).contains(',') by {
            assert(is_identifier(c.targets[i]));
        }
        lemma_join_ends(c.targets, ',');
        assert(is_identifier(c.targets[0]));
        assert(is_identifier(c.targets[c.targets.len() - 1]));
        lemma_trim_keeps_unpadded(head);
        assert(head != all_word()) by {
            if c.targets.len() == 1 {
                assert(head == c.targets[0]);
            } else {
                let k: int = choose|k: int| 0 <= k < head.len() && head[k] == ',';
                if head == all_word() {
                    assert(head[k] != ',');
                }
            }
        }
        lemma_split_join(c.targets, ',');
        lemma_identifiers_of_identifiers(c.targets);
    }
}

} // verus!
