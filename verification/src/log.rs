use vstd::prelude::*;

use vstd::string::StringExecFns;

verus! {

/// What serializing a list of log lines as a JSON array yields; the result
/// depends on the lines alone.
pub uninterp spec fn json_of_lines(lines: Seq<Seq<char>>) -> Seq<char>;

/// Relies on `serde_json::to_string` for `Vec<String>`: serialization is
/// total for strings and depends on the lines alone.
#[verifier::external_body]
fn serialize_lines(lines: &Vec<String>) -> (r: String)
    ensures
        r@ == json_of_lines(lines.deep_view()),
{
    serde_json::to_string(lines).unwrap_or_default()
}

/// The first index holding lines for `c`, or `-1`.
pub open spec fn log_index(s: Seq<(u32, Vec<String>)>, c: u32) -> int
    decreases s.len(),
{
    if s.len() == 0 {
        -1
    } else if s.first().0 == c {
        0
    } else {
        let r = log_index(s.drop_first(), c);
        if r < 0 {
            -1
        } else {
            r + 1
        }
    }
}

/// Per-request log lines kept to be echoed back in a response header.
#[derive(Debug)]
pub struct LogStore {
    logs: Vec<(u32, Vec<String>)>,
}

impl LogStore {
    /// The stored lines per http context.
    pub closed spec fn lines_of(&self, context: u32) -> Seq<Seq<char>> {
        if log_index(self.logs@, context) >= 0 {
            self.logs@[log_index(self.logs@, context)].1.deep_view()
        } else {
            Seq::empty()
        }
    }

    pub fn new() -> (r: LogStore)
        ensures
            forall|c: u32| r.lines_of(c) == Seq::<Seq<char>>::empty(),
    {
        LogStore { logs: Vec::new() }
    }

    fn find(&self, context: u32) -> (r: Option<usize>)
        ensures
            match r {
                Some(i) => i as int == log_index(self.logs@, context) && i < self.logs@.len()
                    && self.logs@[i as int].0 == context,
                None => log_index(self.logs@, context) < 0,
            },
    {
        let mut i: usize = 0;
        while i < self.logs.len()
            invariant
                i <= self.logs@.len(),
                forall|j: int| 0 <= j < i ==> (#[trigger] self.logs@[j]).0 != context,
        decreases self.logs@.len() - i,
        {
            if self.logs[i].0 == context {
                proof {
                    lemma_log_index(self.logs@, context);
                }
                return Some(i);
            }
            i = i + 1;
        }
        proof {
            lemma_log_index(self.logs@, context);
        }
        None
    }

    /// Appends one line under the request's context; other contexts' lines
    /// are untouched.
    pub fn store_logs(&mut self, context: u32, message: &str)
        ensures
            final(self).lines_of(context) == old(self).lines_of(context).push(message@),
            forall|c: u32| c != context ==> final(self).lines_of(c) == old(self).lines_of(c),
    {
        match self.find(context) {
            Some(i) => {
                let ghost pre = self.logs@;
                let mut pair = self.logs.remove(i);
                pair.1.push(message.to_owned());
                self.logs.insert(i, pair);
                proof {
                    assert(self.logs@ =~= pre.update(i as int, (pre[i as int].0, self.logs@[i as int].1)));
                    lemma_log_index_update(pre, i as int, self.logs@[i as int].1, context);
                    assert(self.logs@[i as int].1.deep_view() =~= pre[i as int].1.deep_view().push(
                        message@,
                    ));
                    assert forall|c: u32| c != context implies self.lines_of(c) == old(self).lines_of(c) by {
                        lemma_log_index_update(pre, i as int, self.logs@[i as int].1, c);
                        lemma_log_index(pre, c);
                        if log_index(pre, c) >= 0 {
                            assert(log_index(pre, c) != i as int);
                            assert(self.logs@[log_index(pre, c)] == pre[log_index(pre, c)]);
                        }
                    }
                }
            },
            None => {
                let ghost pre = self.logs@;
                let mut lines: Vec<String> = Vec::new();
                lines.push(message.to_owned());
                self.logs.push((context, lines));
                proof {
                    lemma_log_index_push_fresh(pre, (context, self.logs@[self.logs@.len() - 1].1), context);
                    assert(self.logs@ =~= pre.push(self.logs@[self.logs@.len() - 1]));
                    assert(self.logs@[self.logs@.len() - 1].1.deep_view()
                        =~= Seq::<Seq<char>>::empty().push(message@));
                    assert forall|c: u32| c != context implies self.lines_of(c) == old(self).lines_of(c) by {
                        lemma_log_index_push_other(pre, self.logs@[self.logs@.len() - 1], c);
                    }
                }
            },
        }
    }

    /// The header echoing a context's collected lines as JSON, which are
    /// cleared; a context with no lines gets a fixed notice instead.
    pub fn get_logs_header_pair(&mut self, context_id: u32) -> (r: (String, String))
        ensures
            r.0@ == "filter-logs"@,
            old(self).lines_of(context_id).len() != 0 ==> r.1@ == json_of_lines(
                old(self).lines_of(context_id),
            ),
            old(self).lines_of(context_id).len() == 0 ==> r.1@
                == "couldn't find logs in the hashmap for this context"@,
            // serving the header clears the context's lines and no others
            final(self).lines_of(context_id) == Seq::<Seq<char>>::empty(),
            forall|c: u32| c != context_id ==> final(self).lines_of(c) == old(self).lines_of(c),
    {
        let header_key = String::from_str("filter-logs");
        let found = self.find(context_id);
        match found {
            Some(i) => {
                if self.logs[i].1.len() > 0 {
                    let serialized = serialize_lines(&self.logs[i].1);
                    let ghost pre = self.logs@;
                    let pair = self.logs.remove(i);
                    self.logs.insert(i, (pair.0, Vec::new()));
                    proof {
                        assert(self.logs@ =~= pre.update(
                            i as int,
                            (pre[i as int].0, self.logs@[i as int].1),
                        ));
                        lemma_log_index_update(pre, i as int, self.logs@[i as int].1, context_id);
                        assert(self.logs@[i as int].1.deep_view() =~= Seq::<Seq<char>>::empty());
                        assert forall|c: u32| c != context_id implies self.lines_of(c) == old(self).lines_of(c) by {
                            lemma_log_index_update(pre, i as int, self.logs@[i as int].1, c);
                            lemma_log_index(pre, c);
                            if log_index(pre, c) >= 0 {
                                assert(log_index(pre, c) != i as int);
                                assert(self.logs@[log_index(pre, c)] == pre[log_index(pre, c)]);
                            }
                        }
                    }
                    (header_key, serialized)
                } else {
                    let note = String::from_str(
                        "couldn't find logs in the hashmap for this context",
                    );
                    (header_key, note)
                }
            },
            None => {
                let note = String::from_str("couldn't find logs in the hashmap for this context");
                (header_key, note)
            },
        }
    }
}

proof fn lemma_log_index(s: Seq<(u32, Vec<String>)>, c: u32)
    ensures
        log_index(s, c) >= 0 ==> log_index(s, c) < s.len() && s[log_index(s, c)].0 == c,
        log_index(s, c) < 0 ==> forall|i: int| 0 <= i < s.len() ==> (#[trigger] s[i]).0 != c,
        log_index(s, c) >= 0 ==> forall|i: int| 0 <= i < log_index(s, c) ==> (#[trigger] s[i]).0
            != c,
    decreases s.len(),
{
    if s.len() > 0 && s.first().0 != c {
        lemma_log_index(s.drop_first(), c);
        if log_index(s.drop_first(), c) < 0 {
            assert forall|i: int| 0 <= i < s.len() implies (#[trigger] s[i]).0 != c by {
                if i > 0 {
                    assert(s.drop_first()[i - 1] == s[i]);
                }
            }
        } else {
            assert forall|i: int| 0 <= i < log_index(s, c) implies (#[trigger] s[i]).0 != c by {
                if i > 0 {
                    assert(s.drop_first()[i - 1] == s[i]);
                }
            }
            assert(s.drop_first()[log_index(s.drop_first(), c)] == s[log_index(s, c)]);
        }
    }
}

proof fn lemma_log_index_update(s: Seq<(u32, Vec<String>)>, i: int, lines: Vec<String>, c: u32)
    requires
        0 <= i < s.len(),
    ensures
        log_index(s.update(i, (s[i].0, lines)), c) == log_index(s, c),
    decreases s.len(),
{
    let t = s.update(i, (s[i].0, lines));
    assert(t.first() == if i == 0 { (s[i].0, lines) } else { s.first() });
    if i == 0 {
        if s.first().0 != c {
            assert(t.drop_first() =~= s.drop_first());
        }
    } else {
        if s.first().0 != c {
            assert(t.drop_first() =~= s.drop_first().update(i - 1, (s[i].0, lines)));
            assert(s.drop_first()[i - 1].0 == s[i].0);
            lemma_log_index_update(s.drop_first(), i - 1, lines, c);
        }
    }
}

proof fn lemma_log_index_push_other(s: Seq<(u32, Vec<String>)>, p: (u32, Vec<String>), c: u32)
    requires
        p.0 != c,
    ensures
        log_index(s.push(p), c) == log_index(s, c),
        log_index(s, c) >= 0 ==> s.push(p)[log_index(s, c)] == s[log_index(s, c)],
    decreases s.len(),
{
    let t = s.push(p);
    if s.len() == 0 {
        assert(t.first() == p);
        assert(t.drop_first() =~= Seq::<(u32, Vec<String>)>::empty());
        assert(log_index(t.drop_first(), c) == -1);
    } else {
        assert(t.first() == s.first());
        assert(t.drop_first() =~= s.drop_first().push(p));
        if s.first().0 != c {
            lemma_log_index_push_other(s.drop_first(), p, c);
        }
        lemma_log_index(s, c);
    }
}

proof fn lemma_log_index_push_fresh(s: Seq<(u32, Vec<String>)>, p: (u32, Vec<String>), c: u32)
    requires
        log_index(s, c) < 0,
        p.0 == c,
    ensures
        log_index(s.push(p), c) == s.len(),
    decreases s.len(),
{
    let t = s.push(p);
    if s.len() == 0 {
        assert(t.first() == p);
    } else {
        assert(t.first() == s.first());
        assert(t.drop_first() =~= s.drop_first().push(p));
        if s.first().0 != c {
            lemma_log_index_push_fresh(s.drop_first(), p, c);
        }
    }
}

} // verus!
