//! Planning a fan-out of one frame to many connections: connections without
//! encryption are grouped by encoding so that each group's bytes are
//! produced once; encrypted connections are encoded one by one; connections
//! that may not receive the frame yet are refused. The caller performs the
//! writes and reports back which succeeded.

use crate::builder::MessageParser;
use crate::connection::ConnectionInfoView;
use crate::manager::{count_registered, ensure_frame_allowed_for_connection, ids_view, lemma_ids_push, may_receive, ConnectionManager};
use crate::protocol::{CompressionAlgorithm, EncryptionAlgorithm, Frame, SerializationFormat};
use crate::registry::ConnTable;
use crate::keyed::lemma_take_next;
use vstd::prelude::*;

verus! {

/// Connections that share one encoding of the frame.
pub struct EncodingGroup {
    /// The encoding of the group (never encrypted).
    pub parser: MessageParser,
    /// Members, in the order they were asked for.
    pub connection_ids: Vec<String>,
}

/// How a frame is to be delivered to a list of connections.
pub struct FanoutPlan {
    /// Unencrypted connections, one group per encoding.
    pub groups: Vec<EncodingGroup>,
    /// Encrypted connections, each encoded on its own.
    pub encrypted: Vec<String>,
    /// Registered connections that may not receive the frame.
    pub refused: Vec<String>,
    /// How many of the requested ids named a registered connection.
    pub total: usize,
}

/// The encoding of a connection: its format and compression.
pub open spec fn encoding_of(info: ConnectionInfoView) -> (SerializationFormat, CompressionAlgorithm) {
    (info.serialization_format, info.compression)
}

/// The encodings of a list of groups.
pub open spec fn group_keys(groups: Seq<EncodingGroup>) -> Seq<(SerializationFormat, CompressionAlgorithm)> {
    groups.map_values(|g: EncodingGroup| (g.parser.format, g.parser.compression))
}

/// A registered, unencrypted connection that may receive `frame`.
pub open spec fn plain_recipient(conns: ConnTable, frame: Frame, c: Seq<char>) -> bool {
    conns.contains_key(c) && conns[c].encryption == EncryptionAlgorithm::Plaintext && may_receive(conns[c], frame)
}

/// A registered, encrypted connection that may receive `frame`.
pub open spec fn encrypted_recipient(conns: ConnTable, frame: Frame, c: Seq<char>) -> bool {
    conns.contains_key(c) && conns[c].encryption != EncryptionAlgorithm::Plaintext && may_receive(conns[c], frame)
}

/// A registered connection that may not receive `frame`.
pub open spec fn refused_recipient(conns: ConnTable, frame: Frame, c: Seq<char>) -> bool {
    conns.contains_key(c) && !may_receive(conns[c], frame)
}

/// A member of the group of encoding `key`.
pub open spec fn group_member(
    conns: ConnTable,
    frame: Frame,
    key: (SerializationFormat, CompressionAlgorithm),
    c: Seq<char>,
) -> bool {
    plain_recipient(conns, frame, c) && encoding_of(conns[c]) == key
}

proof fn lemma_filter_none(s: Seq<Seq<char>>, p: spec_fn(Seq<char>) -> bool)
    requires
        forall|i: int| 0 <= i < s.len() ==> !p(#[trigger] s[i]),
    ensures
        s.filter(p) == Seq::<Seq<char>>::empty(),
    decreases s.len(),
{
    reveal(Seq::filter);
    if s.len() > 0 {
        lemma_filter_none(s.drop_last(), p);
        assert(s.filter(p) =~= Seq::<Seq<char>>::empty());
    }
}

/// `a - b`, clamped to the range of `i32`.
pub open spec fn saturating_sub_i32(a: i32, b: i32) -> i32 {
    if a - b < i32::MIN {
        i32::MIN
    } else if a - b > i32::MAX {
        i32::MAX
    } else {
        (a - b) as i32
    }
}

/// The outcome of a fan-out: how many writes succeeded and how many of the
/// `total` connections were not reached (counts as `i32`, the difference
/// saturating).
pub fn fanout_outcome(total: usize, succeeded: usize) -> (r: (i32, i32))
    ensures
        r.0 == succeeded as i32,
        r.1 == saturating_sub_i32(total as i32, succeeded as i32),
{
    let s = succeeded as i32;
    let t = total as i32;
    let d: i64 = t as i64 - s as i64;
    let failed: i32 = if d < i32::MIN as i64 {
        i32::MIN
    } else if d > i32::MAX as i64 {
        i32::MAX
    } else {
        d as i32
    };
    (s, failed)
}

fn find_group(groups: &Vec<EncodingGroup>, format: SerializationFormat, compression: CompressionAlgorithm) -> (r: Option<usize>)
    ensures
        match r {
            Some(j) => j < groups@.len() && group_keys(groups@)[j as int] == (format, compression),
            None => !group_keys(groups@).contains((format, compression)),
        },
{
    let mut j: usize = 0;
    while j < groups.len()
        invariant
            j <= groups@.len(),
            forall|q: int| 0 <= q < j ==> group_keys(groups@)[q] != (format, compression),
        decreases groups@.len() - j,
    {
        if groups[j].parser.format == format && groups[j].parser.compression == compression {
            return Some(j);
        }
        j += 1;
    }
    None
}

impl<H> ConnectionManager<H> {
    /// Plans the delivery of `frame` to `connection_ids` (ids that name no
    /// registered connection are skipped; repeated ids are planned again).
    #[verifier::spinoff_prover]
    #[verifier::rlimit(60)]
    pub fn plan_grouped_fanout(&self, connection_ids: &Vec<String>, frame: &Frame) -> (p: FanoutPlan)
        requires
            self.wf(),
        ensures
            p.total == count_registered(self.conns().dom(), ids_view(connection_ids@)),
            ids_view(p.encrypted@) == ids_view(connection_ids@).filter(
                |c: Seq<char>| encrypted_recipient(self.conns(), *frame, c),
            ),
            ids_view(p.refused@) == ids_view(connection_ids@).filter(
                |c: Seq<char>| refused_recipient(self.conns(), *frame, c),
            ),
            forall|g: int|
                0 <= g < p.groups@.len() ==> {
                    let grp = #[trigger] p.groups@[g];
                    &&& grp.parser.encryption == EncryptionAlgorithm::Plaintext
                    &&& grp.connection_ids@.len() > 0
                    &&& ids_view(grp.connection_ids@) == ids_view(connection_ids@).filter(
                        |c: Seq<char>| group_member(self.conns(), *frame, (grp.parser.format, grp.parser.compression), c),
                    )
                },
            group_keys(p.groups@).no_duplicates(),
            forall|c: Seq<char>|
                ids_view(connection_ids@).contains(c) && #[trigger] plain_recipient(self.conns(), *frame, c)
                    ==> group_keys(p.groups@).contains(encoding_of(self.conns()[c])),
    {
        let ghost conns = self.conns();
        let ghost all = ids_view(connection_ids@);
        let ghost enc_p = |c: Seq<char>| encrypted_recipient(conns, *frame, c);
        let ghost ref_p = |c: Seq<char>| refused_recipient(conns, *frame, c);
        let mut groups: Vec<EncodingGroup> = Vec::new();
        let mut encrypted: Vec<String> = Vec::new();
        let mut refused: Vec<String> = Vec::new();
        let mut total: usize = 0;
        let mut i: usize = 0;
        proof {
            reveal(Seq::filter);
            assert(all.take(0).filter(enc_p) =~= Seq::empty());
            assert(all.take(0).filter(ref_p) =~= Seq::empty());
            assert(count_registered(conns.dom(), all.take(0)) == 0);
        }
        while i < connection_ids.len()
            invariant
                self.wf(),
                conns == self.conns(),
                all == ids_view(connection_ids@),
                i <= all.len(),
                enc_p == (|c: Seq<char>| encrypted_recipient(conns, *frame, c)),
                ref_p == (|c: Seq<char>| refused_recipient(conns, *frame, c)),
                total == count_registered(conns.dom(), all.take(i as int)),
                total <= i,
                ids_view(encrypted@) == all.take(i as int).filter(enc_p),
                ids_view(refused@) == all.take(i as int).filter(ref_p),
                forall|g: int|
                    0 <= g < groups@.len() ==> {
                        let grp = #[trigger] groups@[g];
                        &&& grp.parser.encryption == EncryptionAlgorithm::Plaintext
                        &&& grp.connection_ids@.len() > 0
                        &&& ids_view(grp.connection_ids@) == all.take(i as int).filter(
                            |c: Seq<char>| group_member(conns, *frame, (grp.parser.format, grp.parser.compression), c),
                        )
                    },
                group_keys(groups@).no_duplicates(),
                forall|c: Seq<char>|
                    all.take(i as int).contains(c) && #[trigger] plain_recipient(conns, *frame, c)
                        ==> group_keys(groups@).contains(encoding_of(conns[c])),
            decreases all.len() - i,
        {
            let ghost c = all[i as int];
            let ghost pre = all.take(i as int);
            let ghost nt = all.take(i + 1);
            proof {
                reveal(Seq::filter);
                assert(nt.drop_last() =~= pre);
                assert(nt.last() == c);
                lemma_take_next(all, i as int);
            }
            let id = &connection_ids[i];
            match self.get_connection(id.as_str()) {
                None => {
                    proof {
                        assert(!conns.contains_key(c));
                        assert forall|g: int| 0 <= g < groups@.len() implies {
                            let grp = #[trigger] groups@[g];
                            ids_view(grp.connection_ids@) == nt.filter(
                                |x: Seq<char>| group_member(conns, *frame, (grp.parser.format, grp.parser.compression), x),
                            )
                        } by {
                        }
                    }
                },
                Some((_, info)) => {
                    proof {
                        assert(conns.contains_key(c) && info@ == conns[c]);
                    }
                    total += 1;
                    let allowed = ensure_frame_allowed_for_connection(id.as_str(), &info, frame).is_ok();
                    if !allowed {
                        proof {
                            lemma_ids_push(refused@, *id);
                        }
                        refused.push(id.clone());
                        proof {
                            assert forall|g: int| 0 <= g < groups@.len() implies {
                                let grp = #[trigger] groups@[g];
                                ids_view(grp.connection_ids@) == nt.filter(
                                    |x: Seq<char>| group_member(conns, *frame, (grp.parser.format, grp.parser.compression), x),
                                )
                            } by {
                            }
                        }
                    } else if info.encryption != EncryptionAlgorithm::Plaintext {
                        proof {
                            lemma_ids_push(encrypted@, *id);
                        }
                        encrypted.push(id.clone());
                        proof {
                            assert forall|g: int| 0 <= g < groups@.len() implies {
                                let grp = #[trigger] groups@[g];
                                ids_view(grp.connection_ids@) == nt.filter(
                                    |x: Seq<char>| group_member(conns, *frame, (grp.parser.format, grp.parser.compression), x),
                                )
                            } by {
                            }
                        }
                    } else {
                        let ghost key = encoding_of(conns[c]);
                        let ghost keys0 = group_keys(groups@);
                        let ghost groups0 = groups@;
                        let found_at = find_group(&groups, info.serialization_format, info.compression);
                        if let Some(j) = found_at {
                            proof {
                                assert(keys0[j as int] == key);
                            }
                            let mut grp = groups.remove(j);
                            let ghost gl = ids_view(grp.connection_ids@);
                            proof {
                                lemma_ids_push(grp.connection_ids@, *id);
                            }
                            grp.connection_ids.push(id.clone());
                            groups.insert(j, grp);
                            proof {
                                assert(groups@ =~= groups0.update(j as int, groups@[j as int]));
                                assert(group_keys(groups@) =~= keys0);
                                assert forall|g: int| 0 <= g < groups@.len() implies {
                                    let grp = #[trigger] groups@[g];
                                    &&& grp.parser.encryption == EncryptionAlgorithm::Plaintext
                                    &&& grp.connection_ids@.len() > 0
                                    &&& ids_view(grp.connection_ids@) == nt.filter(
                                        |x: Seq<char>| group_member(conns, *frame, (grp.parser.format, grp.parser.compression), x),
                                    )
                                } by {
                                    if g != j {
                                        assert(groups@[g] == groups0[g]);
                                        assert(keys0[g] != keys0[j as int]);
                                    }
                                }
                                assert forall|x: Seq<char>|
                                    nt.contains(x) && #[trigger] plain_recipient(conns, *frame, x)
                                        implies group_keys(groups@).contains(encoding_of(conns[x])) by {
                                    if x == c {
                                        assert(keys0[j as int] == key);
                                    }
                                }
                            }
                        } else {
                            let parser = MessageParser::new(info.serialization_format, info.compression, EncryptionAlgorithm::Plaintext);
                            let mut members: Vec<String> = Vec::new();
                            proof {
                                lemma_ids_push(members@, *id);
                            }
                            members.push(id.clone());
                            proof {
                                assert(ids_view(members@) =~= seq![c]);
                                let p_new = |x: Seq<char>| group_member(conns, *frame, key, x);
                                assert forall|q: int| 0 <= q < pre.len() implies !p_new(#[trigger] pre[q]) by {
                                    if p_new(pre[q]) {
                                        assert(pre.contains(pre[q]));
                                        assert(plain_recipient(conns, *frame, pre[q]));
                                        assert(keys0.contains(key));
                                    }
                                }
                                lemma_filter_none(pre, p_new);
                                assert(nt.filter(p_new) =~= seq![c]);
                            }
                            groups.push(EncodingGroup { parser, connection_ids: members });
                            proof {
                                assert(group_keys(groups@) =~= keys0.push(key));
                                assert(group_keys(groups@).no_duplicates()) by {
                                    assert forall|a: int, b: int|
                                        0 <= a < b < group_keys(groups@).len() implies group_keys(groups@)[a]
                                        != group_keys(groups@)[b] by {
                                        if b == keys0.len() {
                                            assert(keys0[a] != key);
                                        }
                                    }
                                }
                                assert forall|g: int| 0 <= g < groups@.len() implies {
                                    let grp = #[trigger] groups@[g];
                                    &&& grp.parser.encryption == EncryptionAlgorithm::Plaintext
                                    &&& grp.connection_ids@.len() > 0
                                    &&& ids_view(grp.connection_ids@) == nt.filter(
                                        |x: Seq<char>| group_member(conns, *frame, (grp.parser.format, grp.parser.compression), x),
                                    )
                                } by {
                                    if g < groups0.len() {
                                        assert(groups@[g] == groups0[g]);
                                        assert(keys0[g] != key);
                                    }
                                }
                                assert forall|x: Seq<char>|
                                    nt.contains(x) && #[trigger] plain_recipient(conns, *frame, x)
                                        implies group_keys(groups@).contains(encoding_of(conns[x])) by {
                                    if x == c {
                                        assert(group_keys(groups@)[keys0.len() as int] == key);
                                    } else {
                                        let kk = group_keys(groups0);
                                        assert(kk.contains(encoding_of(conns[x])));
                                        let w = choose|w: int| 0 <= w < kk.len() && kk[w] == encoding_of(conns[x]);
                                        assert(group_keys(groups@)[w] == kk[w]);
                                    }
                                }
                            }
                        }
                    }
                },
            }
            i += 1;
        }
        proof {
            assert(all.take(all.len() as int) =~= all);
        }
        FanoutPlan { groups, encrypted, refused, total }
    }
}


/// Every registered connection falls in exactly one class of a fan-out
/// plan: unencrypted recipient (grouped by encoding), encrypted recipient,
/// or refused.
pub proof fn lemma_recipient_classes_partition(conns: ConnTable, frame: Frame, c: Seq<char>)
    requires
        conns.contains_key(c),
    ensures
        plain_recipient(conns, frame, c) || encrypted_recipient(conns, frame, c) || refused_recipient(conns, frame, c),
        !(plain_recipient(conns, frame, c) && encrypted_recipient(conns, frame, c)),
        !(plain_recipient(conns, frame, c) && refused_recipient(conns, frame, c)),
        !(encrypted_recipient(conns, frame, c) && refused_recipient(conns, frame, c)),
        plain_recipient(conns, frame, c) ==> group_member(conns, frame, encoding_of(conns[c]), c),
{
}

} // verus!
