use crate::error::{Error, ErrorView};
use crate::message::{fits, FilterType};
use crate::serde::parameters::{lemma_auth_roundtrip, opt_view, read_auth_list, spec_auth_list_wire, spec_read_auth_list, write_auth_list};
use crate::serde::varint::{lemma_u64_roundtrip, read_var_int, spec_read_var_int, spec_var_int, write_var_int};
use crate::serde::{
    at, lemma_at_split, lemma_first_step, lemma_string_roundtrip, lemma_then_step, lemma_vec_len,
    read_outcome, read_string, spec_read_string, spec_string, then, write_string, wrote,
    Deserializer, Serializer,
};
use vstd::prelude::*;

verus! {

/// Subscribes to a track.
#[derive(Default, Debug, Clone, Eq, PartialEq)]
pub struct Subscribe {
    pub subscribe_id: u64,
    pub track_alias: u64,
    pub track_namespace: String,
    pub track_name: String,
    pub filter_type: FilterType,
    pub authorization_info: Option<String>,
}

/// The content of a [`Subscribe`], strings taken by their characters.
pub struct SubscribeView {
    pub subscribe_id: u64,
    pub track_alias: u64,
    pub track_namespace: Seq<char>,
    pub track_name: Seq<char>,
    pub filter_type: FilterType,
    pub authorization_info: Option<Seq<char>>,
}

impl View for Subscribe {
    type V = SubscribeView;

    open spec fn view(&self) -> SubscribeView {
        SubscribeView { subscribe_id: self.subscribe_id, track_alias: self.track_alias, track_namespace: self.track_namespace@, track_name: self.track_name@, filter_type: self.filter_type, authorization_info: opt_view(self.authorization_info) }
    }
}

impl Subscribe {
    /// What writing a Subscribe appends: its fields in order.
    pub open spec fn spec_wire(v: SubscribeView) -> Result<Seq<u8>, ErrorView> {
        then(then(then(then(then(spec_var_int(v.subscribe_id), spec_var_int(v.track_alias)), spec_string(v.track_namespace)), spec_string(v.track_name)), FilterType::spec_wire(v.filter_type)), spec_auth_list_wire(v.authorization_info))
    }

    /// Reading a Subscribe at `off`.
    pub open spec fn spec_parse(s: Seq<u8>, off: int) -> Result<(SubscribeView, int), ErrorView> {
        match spec_read_var_int(s, off) {
            Ok((x_subscribe_id, p1)) => {
                match spec_read_var_int(s, p1) {
                    Ok((x_track_alias, p2)) => {
                        match spec_read_string(s, p2) {
                            Ok((x_track_namespace, p3)) => {
                                match spec_read_string(s, p3) {
                                    Ok((x_track_name, p4)) => {
                                        match FilterType::spec_parse(s, p4) {
                                            Ok((x_filter_type, p5)) => {
                                                match spec_read_auth_list(s, p5, "AUTHORIZATION_INFO parameter appears twice in SUBSCRIBE"@, false) {
                                                    Ok((x_authorization_info, p6)) => {
                                                        Ok((SubscribeView { subscribe_id: x_subscribe_id, track_alias: x_track_alias, track_namespace: x_track_namespace, track_name: x_track_name, filter_type: x_filter_type, authorization_info: x_authorization_info }, p6))
                                                    },
                                                    Err(e) => Err(e),
                                                }
                                            },
                                            Err(e) => Err(e),
                                        }
                                    },
                                    Err(e) => Err(e),
                                }
                            },
                            Err(e) => Err(e),
                        }
                    },
                    Err(e) => Err(e),
                }
            },
            Err(e) => Err(e),
        }
    }

    pub fn parse(r: &[u8], pos: usize) -> (res: Result<(Subscribe, usize), Error>)
        ensures
            read_outcome(res, Subscribe::spec_parse(r@, pos as int)),
    {
        let (subscribe_id, p1) = match read_var_int(r, pos) {
            Ok(x) => x,
            Err(e) => return Err(e),
        };
        let (track_alias, p2) = match read_var_int(r, p1) {
            Ok(x) => x,
            Err(e) => return Err(e),
        };
        let (track_namespace, p3) = match read_string(r, p2) {
            Ok(x) => x,
            Err(e) => return Err(e),
        };
        let (track_name, p4) = match read_string(r, p3) {
            Ok(x) => x,
            Err(e) => return Err(e),
        };
        let (filter_type, p5) = match FilterType::parse(r, p4) {
            Ok(x) => x,
            Err(e) => return Err(e),
        };
        let (authorization_info, p6) = match read_auth_list(r, p5, "AUTHORIZATION_INFO parameter appears twice in SUBSCRIBE", false) {
            Ok(x) => x,
            Err(e) => return Err(e),
        };
        Ok((Subscribe { subscribe_id, track_alias, track_namespace, track_name, filter_type, authorization_info }, p6))
    }

    /// A Subscribe written and read back is the same Subscribe.
    #[verifier::spinoff_prover]
    #[verifier::rlimit(40)]
    pub proof fn lemma_roundtrip(v: SubscribeView, s: Seq<u8>, off: int)
        requires
            Subscribe::spec_wire(v) is Ok,
            fits(v.track_namespace),
            fits(v.track_name),
            v.authorization_info is Some && fits(v.authorization_info->Some_0),
            at(s, off, Subscribe::spec_wire(v)->Ok_0),
        ensures
            Subscribe::spec_parse(s, off) == Ok::<(SubscribeView, int), ErrorView>(
                (v, off + Subscribe::spec_wire(v)->Ok_0.len()),
            ),
    {
        let b0 = spec_var_int(v.subscribe_id)->Ok_0;
        let b1 = spec_var_int(v.track_alias)->Ok_0;
        let b2 = spec_string(v.track_namespace)->Ok_0;
        let b3 = spec_string(v.track_name)->Ok_0;
        let b4 = FilterType::spec_wire(v.filter_type)->Ok_0;
        let b5 = spec_auth_list_wire(v.authorization_info)->Ok_0;
        lemma_at_split(s, off, (b0 + b1 + b2 + b3 + b4), b5);
        lemma_at_split(s, off, (b0 + b1 + b2 + b3), b4);
        lemma_at_split(s, off, (b0 + b1 + b2), b3);
        lemma_at_split(s, off, (b0 + b1), b2);
        lemma_at_split(s, off, b0, b1);
        lemma_u64_roundtrip(v.subscribe_id, s, off);
        lemma_u64_roundtrip(v.track_alias, s, off + b0.len());
        lemma_string_roundtrip(v.track_namespace, s, off + (b0 + b1).len());
        lemma_string_roundtrip(v.track_name, s, off + (b0 + b1 + b2).len());
        FilterType::lemma_roundtrip(v.filter_type, s, off + (b0 + b1 + b2 + b3).len());
        lemma_auth_roundtrip(v.authorization_info->Some_0, s, off + (b0 + b1 + b2 + b3 + b4).len(), "AUTHORIZATION_INFO parameter appears twice in SUBSCRIBE"@, false);
    }

    pub fn write(&self, w: &mut Vec<u8>) -> (res: Result<usize, Error>)
        ensures
            wrote(old(w)@, final(w)@, res, Subscribe::spec_wire(self@)),
    {
        let ghost old_w = w@;
        let r = write_var_int(self.subscribe_id, w);
        proof {
            lemma_first_step(old_w, w@, r, spec_var_int(self.subscribe_id));
        }
        let mut total = match r {
            Ok(l) => l,
            Err(e) => return Err(e),
        };
        let ghost mut acc = spec_var_int(self.subscribe_id)->Ok_0;
        let r = write_var_int(self.track_alias, w);
        proof {
            lemma_then_step(old_w, acc, w@, r, spec_var_int(self.track_alias));
            lemma_vec_len(w);
        }
        let l = match r {
            Ok(l) => l,
            Err(e) => return Err(e),
        };
        proof {
            acc = acc + spec_var_int(self.track_alias)->Ok_0;
        }
        total = total + l;
        let r = write_string(&self.track_namespace, w);
        proof {
            lemma_then_step(old_w, acc, w@, r, spec_string(self.track_namespace@));
            lemma_vec_len(w);
        }
        let l = match r {
            Ok(l) => l,
            Err(e) => return Err(e),
        };
        proof {
            acc = acc + spec_string(self.track_namespace@)->Ok_0;
        }
        total = total + l;
        let r = write_string(&self.track_name, w);
        proof {
            lemma_then_step(old_w, acc, w@, r, spec_string(self.track_name@));
            lemma_vec_len(w);
        }
        let l = match r {
            Ok(l) => l,
            Err(e) => return Err(e),
        };
        proof {
            acc = acc + spec_string(self.track_name@)->Ok_0;
        }
        total = total + l;
        let r = self.filter_type.write(w);
        proof {
            lemma_then_step(old_w, acc, w@, r, FilterType::spec_wire(self.filter_type));
            lemma_vec_len(w);
        }
        let l = match r {
            Ok(l) => l,
            Err(e) => return Err(e),
        };
        proof {
            acc = acc + FilterType::spec_wire(self.filter_type)->Ok_0;
        }
        total = total + l;
        let r = write_auth_list(&self.authorization_info, w);
        proof {
            lemma_then_step(old_w, acc, w@, r, spec_auth_list_wire(opt_view(self.authorization_info)));
            lemma_vec_len(w);
        }
        let l = match r {
            Ok(l) => l,
            Err(e) => return Err(e),
        };
        proof {
            acc = acc + spec_auth_list_wire(opt_view(self.authorization_info))->Ok_0;
        }
        total = total + l;
        Ok(total)
    }
}

impl Serializer for Subscribe {
    open spec fn spec_serialize(v: SubscribeView) -> Result<Seq<u8>, ErrorView> {
        Subscribe::spec_wire(v)
    }

    fn serialize(&self, w: &mut Vec<u8>) -> (res: Result<usize, Error>) {
        self.write(w)
    }
}

impl Deserializer for Subscribe {
    open spec fn spec_deserialize(s: Seq<u8>) -> Result<(SubscribeView, int), ErrorView> {
        Subscribe::spec_parse(s, 0)
    }

    fn deserialize(r: &[u8]) -> (res: Result<(Subscribe, usize), Error>) {
        Subscribe::parse(r, 0)
    }
}
} // verus!
