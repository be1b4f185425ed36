//! Data structures for marshaling to honeybadger's API, and the
//! normalization of application errors into the canonical nested record.
use vstd::prelude::*;
use vstd::utf8::encode_utf8;

use crate::json::{
    dec, jstr, lemma_assoc, lemma_cancel_prefix, lemma_cancel_suffix, lemma_dec_suffix,
    lemma_jstr_prefix, opt_jstr, pairs_json, push_dec, push_json_string, push_lit,
    push_opt_string, push_pairs,
};

verus! {

/// One frame of a captured stack trace, as carried in a notice.
pub struct StackFrame {
    pub line: Option<String>,
    pub file: Option<String>,
    pub symbol: Option<String>,
}

/// The canonical record of one error and its transitive cause chain.
///
/// A record with no causes carries `None` rather than an empty list, to
/// distinguish a source without chain support from an exhausted chain.
pub struct Error {
    pub class: String,
    pub message: Option<String>,
    pub causes: Option<Vec<Error>>,
    pub frames: Option<Vec<StackFrame>>,
}

/// The static identity block of this client library.
pub struct Notifier {
    pub name: String,
    pub url: String,
    pub version: String,
}

/// The caller-supplied context and the environment snapshot taken when the
/// notice was built.  Pairs are kept in insertion order; keys are expected to
/// be unique.
pub struct Request {
    pub context: Option<Vec<(String, String)>>,
    pub cgi_data: Vec<(String, String)>,
}

/// Host metadata at the time the notice was built.
pub struct Server {
    pub project_root: String,
    pub environment_name: String,
    pub hostname: String,
    pub time: u64,
    pub pid: u32,
}

/// The full wire payload for one reported error.
pub struct Notice {
    pub api_key: String,
    pub notifier: Notifier,
    pub error: Error,
    pub request: Request,
    pub server: Server,
}

/// The JSON encoding of one error record: class, message (or null) and the
/// cause list (or null).  Stack frames are not part of the wire format.
pub open spec fn error_json(e: Error) -> Seq<u8>
    decreases e,
{
    encode_utf8("{\"class\":"@) + jstr(e.class@) + encode_utf8(",\"message\":"@) + opt_jstr(
        e.message,
    ) + encode_utf8(",\"causes\":"@) + (match e.causes {
        Option::None => encode_utf8("null"@),
        Option::Some(v) => seq![91u8] + errors_body(v, v.len() as int) + seq![93u8],
    }) + seq![125u8]
}

/// The JSON encodings of the first `n` records of a cause list, in order,
/// separated by commas.
pub open spec fn errors_body(v: Vec<Error>, n: int) -> Seq<u8>
    decreases v, n,
        when n <= v.len()
{
    if n <= 0 {
        Seq::empty()
    } else if n == 1 {
        error_json(v[0])
    } else {
        errors_body(v, n - 1) + seq![44u8] + error_json(v[n - 1])
    }
}

/// The complete JSON document of a notice, from its parts.  The notifier
/// block's fields are passed in so that the document is a function of the
/// whole payload.
pub open spec fn notice_doc(
    api_key: Seq<char>,
    name: Seq<char>,
    url: Seq<char>,
    version: Seq<char>,
    error: Error,
    context: Option<Vec<(String, String)>>,
    cgi_data: Seq<(String, String)>,
    project_root: Seq<char>,
    environment_name: Seq<char>,
    hostname: Seq<char>,
    time: u64,
    pid: u32,
) -> Seq<u8> {
    encode_utf8("{\"api_key\":"@) + jstr(api_key) + encode_utf8(",\"notifier\":{\"name\":"@)
        + jstr(name) + encode_utf8(",\"url\":"@) + jstr(url) + encode_utf8(",\"version\":"@)
        + jstr(version) + encode_utf8("},\"error\":"@) + error_json(error) + encode_utf8(
        ",\"request\":{\"context\":"@,
    ) + (match context {
        Option::None => encode_utf8("null"@),
        Option::Some(c) => pairs_json(c@),
    }) + encode_utf8(",\"cgi_data\":"@) + pairs_json(cgi_data) + encode_utf8(
        "},\"server\":{\"project_root\":"@,
    ) + jstr(project_root) + encode_utf8(",\"environment_name\":"@) + jstr(environment_name)
        + encode_utf8(",\"hostname\":"@) + jstr(hostname) + encode_utf8(",\"time\":"@) + dec(
        time as nat,
    ) + encode_utf8(",\"pid\":"@) + dec(pid as nat) + encode_utf8("}}"@)
}

/// Append the JSON encoding of one error record, recursing through its cause
/// list.
pub fn write_error(out: &mut Vec<u8>, e: &Error)
    ensures
        final(out)@ == old(out)@ + error_json(*e),
    decreases *e,
{
    let ghost base = out@;
    push_lit(out, "{\"class\":");
    push_json_string(out, e.class.as_str());
    push_lit(out, ",\"message\":");
    push_opt_string(out, &e.message);
    push_lit(out, ",\"causes\":");
    match &e.causes {
        Option::None => {
            push_lit(out, "null");
        },
        Option::Some(v) => {
            out.push(91);
            let ghost mid = out@;
            let mut i: usize = 0;
            while i < v.len()
                invariant
                    i <= v@.len(),
                    out@ == mid + errors_body(*v, i as int),
                    decreases_to!(*e => *v),
                decreases v@.len() - i,
            {
                if i > 0 {
                    out.push(44);
                }
                proof {
                    assert(decreases_to!(*v => v[i as int]));
                }
                write_error(out, &v[i]);
                i = i + 1;
                proof {
                    assert(out@ =~= mid + errors_body(*v, i as int));
                }
            }
            out.push(93);
        },
    }
    out.push(125);
    proof {
        assert(out@ =~= base + error_json(*e));
    }
}

impl Notice {
    /// Serialize the notice to its canonical JSON document.
    pub fn to_json(&self) -> (r: Vec<u8>)
        ensures
            r@ == notice_doc(
                self.api_key@,
                self.notifier.name@,
                self.notifier.url@,
                self.notifier.version@,
                self.error,
                self.request.context,
                self.request.cgi_data@,
                self.server.project_root@,
                self.server.environment_name@,
                self.server.hostname@,
                self.server.time,
                self.server.pid,
            ),
    {
        let mut out: Vec<u8> = Vec::new();
        push_lit(&mut out, "{\"api_key\":");
        push_json_string(&mut out, self.api_key.as_str());
        push_lit(&mut out, ",\"notifier\":{\"name\":");
        push_json_string(&mut out, self.notifier.name.as_str());
        push_lit(&mut out, ",\"url\":");
        push_json_string(&mut out, self.notifier.url.as_str());
        push_lit(&mut out, ",\"version\":");
        push_json_string(&mut out, self.notifier.version.as_str());
        push_lit(&mut out, "},\"error\":");
        write_error(&mut out, &self.error);
        push_lit(&mut out, ",\"request\":{\"context\":");
        match &self.request.context {
            Option::None => push_lit(&mut out, "null"),
            Option::Some(c) => push_pairs(&mut out, c),
        }
        push_lit(&mut out, ",\"cgi_data\":");
        push_pairs(&mut out, &self.request.cgi_data);
        push_lit(&mut out, "},\"server\":{\"project_root\":");
        push_json_string(&mut out, self.server.project_root.as_str());
        push_lit(&mut out, ",\"environment_name\":");
        push_json_string(&mut out, self.server.environment_name.as_str());
        push_lit(&mut out, ",\"hostname\":");
        push_json_string(&mut out, self.server.hostname.as_str());
        push_lit(&mut out, ",\"time\":");
        push_dec(&mut out, self.server.time);
        push_lit(&mut out, ",\"pid\":");
        push_dec(&mut out, self.server.pid as u64);
        push_lit(&mut out, "}}");
        proof {
            assert(out@ =~= notice_doc(
                self.api_key@,
                self.notifier.name@,
                self.notifier.url@,
                self.notifier.version@,
                self.error,
                self.request.context,
                self.request.cgi_data@,
                self.server.project_root@,
                self.server.environment_name@,
                self.server.hostname@,
                self.server.time,
                self.server.pid,
            ));
        }
        out
    }
}

/// One displayable link of a source error's cause chain, paired with its
/// debug rendering.
pub struct CauseInfo {
    pub display: String,
    pub debug: String,
}

/// One symbol entry of a physical stack frame; several entries may be inlined
/// into one frame.
pub struct SymbolInfo {
    pub line: Option<String>,
    pub file: Option<String>,
    pub symbol: Option<String>,
}

/// One physical frame of a captured backtrace, with its symbol entries from
/// innermost to outermost.
pub struct FrameData {
    pub symbols: Vec<SymbolInfo>,
}

/// The closed set of source shapes an application error may take: an error
/// with a full cause chain (and optionally a backtrace), an aggregate with a
/// label and named sub-errors, or an opaque boxed error with only its display
/// and debug renderings.
pub enum SourceError {
    Chained {
        description: String,
        display_chain: String,
        chain: Vec<String>,
        backtrace: Option<Vec<FrameData>>,
    },
    Aggregate { display: String, debug: String, causes: Vec<CauseInfo> },
    Opaque { display: String, debug: String },
}

/// The record of the cause chain `chain[start..]`, nested one link at a time:
/// each link carries the next link as its single cause, and the last link
/// carries none.
pub open spec fn is_chain_record(r: Error, chain: Seq<String>, start: int) -> bool
    decreases chain.len() - start,
        when 0 <= start < chain.len()
{
    &&& r.class@ == chain[start]@
    &&& r.message is None
    &&& r.frames is None
    &&& if start + 1 < chain.len() {
        match r.causes {
            Option::Some(cs) => cs.len() == 1 && is_chain_record(cs[0], chain, start + 1),
            Option::None => false,
        }
    } else {
        r.causes is None
    }
}

/// The stack frame a physical frame contributes: its outermost symbol entry.
pub open spec fn frame_of(f: FrameData) -> StackFrame {
    StackFrame {
        line: f.symbols@.last().line,
        file: f.symbols@.last().file,
        symbol: f.symbols@.last().symbol,
    }
}

/// The frames of a notice from a captured backtrace, in the backtrace's own
/// order: one frame per physical frame that has at least one symbol entry
/// (frames with none are skipped), each contributing its outermost entry.
pub open spec fn spec_frames(b: Seq<FrameData>) -> Seq<StackFrame>
    decreases b.len(),
{
    if b.len() == 0 {
        Seq::empty()
    } else if b.last().symbols@.len() == 0 {
        spec_frames(b.drop_last())
    } else {
        spec_frames(b.drop_last()).push(frame_of(b.last()))
    }
}

/// The record of one named sub-error of an aggregate: its display string as
/// the class, its debug string as the message, and no chain of its own.
pub open spec fn is_sub_record(r: Error, c: CauseInfo) -> bool {
    &&& r.class@ == c.display@
    &&& match r.message {
        Option::Some(m) => m@ == c.debug@,
        Option::None => false,
    }
    &&& r.causes is None
    &&& r.frames is None
}

/// What normalization produces for each source shape.  Normalization never
/// fails: absent optional data degrades to `None`, never to an error.
pub open spec fn is_normalized(r: Error, source: SourceError) -> bool {
    match source {
        SourceError::Chained { description, display_chain, chain, backtrace } => {
            &&& r.class@ == description@
            &&& match r.message {
                Option::Some(m) => m@ == display_chain@,
                Option::None => false,
            }
            &&& match r.causes {
                Option::Some(cs) => chain@.len() > 0 && cs.len() == chain@.len() && (forall|i: int|
                    0 <= i < chain@.len() ==> is_chain_record(#[trigger] cs[i], chain@, i)),
                Option::None => chain@.len() == 0,
            }
            &&& match backtrace {
                Option::Some(b) => match r.frames {
                    Option::Some(fs) => fs@ == spec_frames(b@),
                    Option::None => false,
                },
                Option::None => r.frames is None,
            }
        },
        SourceError::Aggregate { display, debug, causes } => {
            &&& r.class@ == display@
            &&& match r.message {
                Option::Some(m) => m@ == debug@,
                Option::None => false,
            }
            &&& match r.causes {
                Option::Some(cs) => causes@.len() > 0 && cs.len() == causes@.len() && (forall|
                    i: int,
                |
                    0 <= i < causes@.len() ==> is_sub_record(#[trigger] cs[i], causes@[i])),
                Option::None => causes@.len() == 0,
            }
            &&& r.frames is None
        },
        SourceError::Opaque { display, debug } => {
            &&& r.class@ == display@
            &&& match r.message {
                Option::Some(m) => m@ == debug@,
                Option::None => false,
            }
            &&& r.causes is None
            &&& r.frames is None
        },
    }
}

/// Copy an optional string.
fn clone_opt_string(m: &Option<String>) -> (r: Option<String>)
    ensures
        r == *m,
{
    match m {
        Option::Some(s) => Option::Some(s.clone()),
        Option::None => Option::None,
    }
}

/// Walk a captured backtrace into the frames of a notice: frames without a
/// symbol entry are skipped, and a frame with several inlined entries
/// contributes its outermost one.
pub fn frames_of(backtrace: &Vec<FrameData>) -> (r: Vec<StackFrame>)
    ensures
        r@ == spec_frames(backtrace@),
{
    let mut r: Vec<StackFrame> = Vec::new();
    let mut i: usize = 0;
    while i < backtrace.len()
        invariant
            i <= backtrace@.len(),
            r@ == spec_frames(backtrace@.subrange(0, i as int)),
        decreases backtrace@.len() - i,
    {
        let f = &backtrace[i];
        if f.symbols.len() > 0 {
            let s = &f.symbols[f.symbols.len() - 1];
            r.push(
                StackFrame {
                    line: clone_opt_string(&s.line),
                    file: clone_opt_string(&s.file),
                    symbol: clone_opt_string(&s.symbol),
                },
            );
        }
        i = i + 1;
        proof {
            let pre = backtrace@.subrange(0, i as int);
            assert(pre.drop_last() =~= backtrace@.subrange(0, i as int - 1));
            assert(r@ =~= spec_frames(pre));
        }
    }
    proof {
        assert(backtrace@.subrange(0, backtrace@.len() as int) =~= backtrace@);
    }
    r
}

impl Error {
    /// The record of the tail `chain[start..]` of a cause chain, nested one
    /// link at a time as a linked list of single causes.
    pub fn std_err(chain: &Vec<String>, start: usize) -> (r: Error)
        requires
            start < chain@.len(),
        ensures
            is_chain_record(r, chain@, start as int),
        decreases chain@.len() - start,
    {
        let n = chain.len();
        let class = chain[start].clone();
        let causes = if start + 1 < n {
            let mut v: Vec<Error> = Vec::new();
            v.push(Error::std_err(chain, start + 1));
            Option::Some(v)
        } else {
            Option::None
        };
        Error { class, message: Option::None, causes, frames: Option::None }
    }

    /// Normalize a chained error: its short description becomes the class,
    /// the rendered chain becomes the message, each link of the cause chain
    /// becomes one record of the cause list (an exhausted chain leaves the
    /// list out entirely), and the backtrace, if one was captured, becomes
    /// the frames.
    pub fn new(
        description: &str,
        display_chain: &str,
        chain: &Vec<String>,
        backtrace: &Option<Vec<FrameData>>,
    ) -> (r: Error)
        ensures
            r.class@ == description@,
            match r.message {
                Option::Some(m) => m@ == display_chain@,
                Option::None => false,
            },
            match r.causes {
                Option::Some(cs) => chain@.len() > 0 && cs.len() == chain@.len() && (forall|i: int|
                    0 <= i < chain@.len() ==> is_chain_record(#[trigger] cs[i], chain@, i)),
                Option::None => chain@.len() == 0,
            },
            match backtrace {
                Option::Some(b) => match r.frames {
                    Option::Some(fs) => fs@ == spec_frames(b@),
                    Option::None => false,
                },
                Option::None => r.frames is None,
            },
    {
        let mut causes: Vec<Error> = Vec::new();
        let mut i: usize = 0;
        while i < chain.len()
            invariant
                i <= chain@.len(),
                causes@.len() == i,
                forall|j: int| 0 <= j < i ==> is_chain_record(#[trigger] causes@[j], chain@, j),
            decreases chain@.len() - i,
        {
            causes.push(Error::std_err(chain, i));
            i = i + 1;
        }
        let frames = match backtrace {
            Option::Some(b) => Option::Some(frames_of(b)),
            Option::None => Option::None,
        };
        let causes = if causes.len() > 0 {
            Option::Some(causes)
        } else {
            Option::None
        };
        Error {
            class: description.to_owned(),
            message: Option::Some(display_chain.to_owned()),
            causes,
            frames,
        }
    }
}

/// Normalize an application error of any supported shape into the canonical
/// record.  Normalization never fails.
pub fn normalize(source: &SourceError) -> (r: Error)
    ensures
        is_normalized(r, *source),
{
    match source {
        SourceError::Chained { description, display_chain, chain, backtrace } => Error::new(
            description.as_str(),
            display_chain.as_str(),
            chain,
            backtrace,
        ),
        SourceError::Aggregate { display, debug, causes } => {
            let mut cs: Vec<Error> = Vec::new();
            let mut i: usize = 0;
            while i < causes.len()
                invariant
                    i <= causes@.len(),
                    cs@.len() == i,
                    forall|j: int|
                        0 <= j < i ==> is_sub_record(#[trigger] cs@[j], causes@[j]),
                decreases causes@.len() - i,
            {
                let c = &causes[i];
                cs.push(
                    Error {
                        class: c.display.clone(),
                        message: Option::Some(c.debug.clone()),
                        causes: Option::None,
                        frames: Option::None,
                    },
                );
                i = i + 1;
            }
            let cs = if cs.len() > 0 {
                Option::Some(cs)
            } else {
                Option::None
            };
            Error {
                class: display.clone(),
                message: Option::Some(debug.clone()),
                causes: cs,
                frames: Option::None,
            }
        },
        SourceError::Opaque { display, debug } => Error {
            class: display.clone(),
            message: Option::Some(debug.clone()),
            causes: Option::None,
            frames: Option::None,
        },
    }
}

/// The two fixed keys before the numeric fields end in a colon, which is not
/// a digit.
proof fn lemma_colon_literals()
    ensures
        encode_utf8(",\"time\":"@).len() == 8,
        encode_utf8(",\"time\":"@).last() == 58,
        encode_utf8(",\"pid\":"@).len() == 7,
        encode_utf8(",\"pid\":"@).last() == 58,
{
    reveal_strlit(",\"time\":");
    reveal_strlit(",\"pid\":");
    assert(vstd::utf8::is_ascii_chars(",\"time\":"@));
    assert(vstd::utf8::is_ascii_chars(",\"pid\":"@));
    vstd::utf8::is_ascii_chars_encode_utf8(",\"time\":"@);
    vstd::utf8::is_ascii_chars_encode_utf8(",\"pid\":"@);
    assert(encode_utf8(",\"time\":"@)[7] == ':' as u8);
    assert(encode_utf8(",\"pid\":"@)[6] == ':' as u8);
}

/// The trailing fields of the document are delimited unambiguously: the
/// colon before each decimal rendering is not a digit.
#[verifier::rlimit(100)]
proof fn lemma_doc_suffix(
    k1: Seq<char>,
    nm1: Seq<char>,
    ur1: Seq<char>,
    ve1: Seq<char>,
    e1: Error,
    cx1: Option<Vec<(String, String)>>,
    cg1: Seq<(String, String)>,
    ro1: Seq<char>,
    en1: Seq<char>,
    ho1: Seq<char>,
    tm1: u64,
    pi1: u32,
    k2: Seq<char>,
    nm2: Seq<char>,
    ur2: Seq<char>,
    ve2: Seq<char>,
    e2: Error,
    cx2: Option<Vec<(String, String)>>,
    cg2: Seq<(String, String)>,
    ro2: Seq<char>,
    en2: Seq<char>,
    ho2: Seq<char>,
    tm2: u64,
    pi2: u32,
)
    requires
        notice_doc(k1, nm1, ur1, ve1, e1, cx1, cg1, ro1, en1, ho1, tm1, pi1) == notice_doc(
            k2,
            nm2,
            ur2,
            ve2,
            e2,
            cx2,
            cg2,
            ro2,
            en2,
            ho2,
            tm2,
            pi2,
        ),
    ensures
        tm1 == tm2,
        pi1 == pi2,
{
    let l0 = encode_utf8("{\"api_key\":"@);
    let l1 = encode_utf8(",\"notifier\":{\"name\":"@);
    let l2 = encode_utf8(",\"url\":"@);
    let l3 = encode_utf8(",\"version\":"@);
    let l4 = encode_utf8("},\"error\":"@);
    let l5 = encode_utf8(",\"request\":{\"context\":"@);
    let l6 = encode_utf8(",\"cgi_data\":"@);
    let l7 = encode_utf8("},\"server\":{\"project_root\":"@);
    let l8 = encode_utf8(",\"environment_name\":"@);
    let l9 = encode_utf8(",\"hostname\":"@);
    let lt = encode_utf8(",\"time\":"@);
    let lp = encode_utf8(",\"pid\":"@);
    let le = encode_utf8("}}"@);

    let ctxpart1 = match cx1 {
        Option::None => encode_utf8("null"@),
        Option::Some(c) => pairs_json(c@),
    };
    let ctxpart2 = match cx2 {
        Option::None => encode_utf8("null"@),
        Option::Some(c) => pairs_json(c@),
    };
    let p1 = l0 + jstr(k1) + l1 + jstr(nm1) + l2 + jstr(ur1) + l3 + jstr(ve1) + l4 + error_json(e1)
        + l5 + ctxpart1 + l6 + pairs_json(cg1) + l7 + jstr(ro1) + l8 + jstr(en1) + l9 + jstr(ho1);
    let p2 = l0 + jstr(k2) + l1 + jstr(nm2) + l2 + jstr(ur2) + l3 + jstr(ve2) + l4 + error_json(e2)
        + l5 + ctxpart2 + l6 + pairs_json(cg2) + l7 + jstr(ro2) + l8 + jstr(en2) + l9 + jstr(ho2);
    let q1 = p1 + lt;
    let q2 = p2 + lt;
    let t1 = q1 + dec(tm1 as nat);
    let t2 = q2 + dec(tm2 as nat);
    let u1 = t1 + lp;
    let u2 = t2 + lp;
    assert(notice_doc(k1, nm1, ur1, ve1, e1, cx1, cg1, ro1, en1, ho1, tm1, pi1) == u1 + dec(
        pi1 as nat,
    ) + le);
    assert(notice_doc(k2, nm2, ur2, ve2, e2, cx2, cg2, ro2, en2, ho2, tm2, pi2) == u2 + dec(
        pi2 as nat,
    ) + le);

    lemma_colon_literals();
    assert(lt.last() == 58 && lp.last() == 58);

    lemma_cancel_suffix(u1 + dec(pi1 as nat), u2 + dec(pi2 as nat), le);
    assert(u1.last() == 58 && u2.last() == 58);
    lemma_dec_suffix(u1, u2, pi1 as nat, pi2 as nat);
    lemma_cancel_suffix(t1, t2, lp);
    assert(q1.last() == 58 && q2.last() == 58);
    lemma_dec_suffix(q1, q2, tm1 as nat, tm2 as nat);
}

/// The document in peelable form: the fixed keys and delimited strings down
/// to the error's class, with everything after the class as one remainder.
proof fn lemma_doc_class_form(
    k: Seq<char>,
    nm: Seq<char>,
    ur: Seq<char>,
    ve: Seq<char>,
    e: Error,
    cx: Option<Vec<(String, String)>>,
    cg: Seq<(String, String)>,
    ro: Seq<char>,
    en: Seq<char>,
    ho: Seq<char>,
    tm: u64,
    pi: u32,
) -> (rest: Seq<u8>)
    ensures
        notice_doc(k, nm, ur, ve, e, cx, cg, ro, en, ho, tm, pi) == encode_utf8(
            "{\"api_key\":"@,
        ) + (jstr(k) + (encode_utf8(",\"notifier\":{\"name\":"@) + (jstr(nm) + (encode_utf8(
            ",\"url\":"@,
        ) + (jstr(ur) + (encode_utf8(",\"version\":"@) + (jstr(ve) + (encode_utf8(
            "},\"error\":"@,
        ) + (encode_utf8("{\"class\":"@) + (jstr(e.class@) + rest)))))))))),
{
    let l0 = encode_utf8("{\"api_key\":"@);
    let l1 = encode_utf8(",\"notifier\":{\"name\":"@);
    let l2 = encode_utf8(",\"url\":"@);
    let l3 = encode_utf8(",\"version\":"@);
    let l4 = encode_utf8("},\"error\":"@);
    let l5 = encode_utf8(",\"request\":{\"context\":"@);
    let l6 = encode_utf8(",\"cgi_data\":"@);
    let l7 = encode_utf8("},\"server\":{\"project_root\":"@);
    let l8 = encode_utf8(",\"environment_name\":"@);
    let l9 = encode_utf8(",\"hostname\":"@);
    let lt = encode_utf8(",\"time\":"@);
    let lp = encode_utf8(",\"pid\":"@);
    let le = encode_utf8("}}"@);
    let m0 = encode_utf8("{\"class\":"@);
    let m1 = encode_utf8(",\"message\":"@);
    let m2 = encode_utf8(",\"causes\":"@);
    let ctxpart = match cx {
        Option::None => encode_utf8("null"@),
        Option::Some(c) => pairs_json(c@),
    };
    let cp = match e.causes {
        Option::None => encode_utf8("null"@),
        Option::Some(v) => seq![91u8] + errors_body(v, v.len() as int) + seq![93u8],
    };
    let doc = notice_doc(k, nm, ur, ve, e, cx, cg, ro, en, ho, tm, pi);
    let ej = error_json(e);

    // The document and the error record, as the left-leaning chains their
    // definitions give.
    let p1 = l0 + jstr(k);
    let p2 = p1 + l1;
    let p3 = p2 + jstr(nm);
    let p4 = p3 + l2;
    let p5 = p4 + jstr(ur);
    let p6 = p5 + l3;
    let p7 = p6 + jstr(ve);
    let p8 = p7 + l4;
    let e1_ = m0 + jstr(e.class@);
    let e2_ = e1_ + m1;
    let e3_ = e2_ + opt_jstr(e.message);
    let e4_ = e3_ + m2;
    let e5_ = e4_ + cp;
    assert(ej == e5_ + seq![125u8]);
    let x1 = p8 + ej;
    let x2 = x1 + l5;
    let x3 = x2 + ctxpart;
    let x4 = x3 + l6;
    let x5 = x4 + pairs_json(cg);
    let x6 = x5 + l7;
    let x7 = x6 + jstr(ro);
    let x8 = x7 + l8;
    let x9 = x8 + jstr(en);
    let x10 = x9 + l9;
    let x11 = x10 + jstr(ho);
    let x12 = x11 + lt;
    let x13 = x12 + dec(tm as nat);
    let x14 = x13 + lp;
    let x15 = x14 + dec(pi as nat);
    assert(doc == x15 + le);

    // Fold the tail into one remainder, one associativity step at a time.
    let t1 = dec(pi as nat) + le;
    lemma_assoc(x14, dec(pi as nat), le);
    let t2 = lp + t1;
    lemma_assoc(x13, lp, t1);
    let t3 = dec(tm as nat) + t2;
    lemma_assoc(x12, dec(tm as nat), t2);
    let t4 = lt + t3;
    lemma_assoc(x11, lt, t3);
    let t5 = jstr(ho) + t4;
    lemma_assoc(x10, jstr(ho), t4);
    let t6 = l9 + t5;
    lemma_assoc(x9, l9, t5);
    let t7 = jstr(en) + t6;
    lemma_assoc(x8, jstr(en), t6);
    let t8 = l8 + t7;
    lemma_assoc(x7, l8, t7);
    let t9 = jstr(ro) + t8;
    lemma_assoc(x6, jstr(ro), t8);
    let t10 = l7 + t9;
    lemma_assoc(x5, l7, t9);
    let t11 = pairs_json(cg) + t10;
    lemma_assoc(x4, pairs_json(cg), t10);
    let t12 = l6 + t11;
    lemma_assoc(x3, l6, t11);
    let t13 = ctxpart + t12;
    lemma_assoc(x2, ctxpart, t12);
    let t14 = l5 + t13;
    lemma_assoc(x1, l5, t13);
    assert(doc == (p8 + ej) + t14);
    let w = ej + t14;
    lemma_assoc(p8, ej, t14);
    assert(doc == p8 + w);

    // Open the error record down to its class.
    let s1 = seq![125u8] + t14;
    lemma_assoc(e5_, seq![125u8], t14);
    assert(w == e5_ + s1);
    let s2 = cp + s1;
    lemma_assoc(e4_, cp, s1);
    let s3 = m2 + s2;
    lemma_assoc(e3_, m2, s2);
    let s4 = opt_jstr(e.message) + s3;
    lemma_assoc(e2_, opt_jstr(e.message), s3);
    let s5 = m1 + s4;
    lemma_assoc(e1_, m1, s4);
    assert(w == e1_ + s5);
    lemma_assoc(m0, jstr(e.class@), s5);
    let rest = jstr(e.class@) + s5;
    assert(w == m0 + rest);

    // Fold the leading keys and strings.
    let w1 = l4 + (m0 + rest);
    lemma_assoc(p7, l4, w);
    assert(doc == p7 + w1);
    let w2 = jstr(ve) + w1;
    lemma_assoc(p6, jstr(ve), w1);
    let w3 = l3 + w2;
    lemma_assoc(p5, l3, w2);
    let w4 = jstr(ur) + w3;
    lemma_assoc(p4, jstr(ur), w3);
    let w5 = l2 + w4;
    lemma_assoc(p3, l2, w4);
    let w6 = jstr(nm) + w5;
    lemma_assoc(p2, jstr(nm), w5);
    let w7 = l1 + w6;
    lemma_assoc(p1, l1, w6);
    lemma_assoc(l0, jstr(k), w7);
    assert(doc == l0 + (jstr(k) + w7));
    s5
}

/// The leading fields of the document are delimited unambiguously: each fixed
/// key is followed by a complete JSON string, which determines itself and
/// what follows.
#[verifier::rlimit(100)]
proof fn lemma_doc_prefix(
    k1: Seq<char>,
    nm1: Seq<char>,
    ur1: Seq<char>,
    ve1: Seq<char>,
    e1: Error,
    cx1: Option<Vec<(String, String)>>,
    cg1: Seq<(String, String)>,
    ro1: Seq<char>,
    en1: Seq<char>,
    ho1: Seq<char>,
    tm1: u64,
    pi1: u32,
    k2: Seq<char>,
    nm2: Seq<char>,
    ur2: Seq<char>,
    ve2: Seq<char>,
    e2: Error,
    cx2: Option<Vec<(String, String)>>,
    cg2: Seq<(String, String)>,
    ro2: Seq<char>,
    en2: Seq<char>,
    ho2: Seq<char>,
    tm2: u64,
    pi2: u32,
)
    requires
        notice_doc(k1, nm1, ur1, ve1, e1, cx1, cg1, ro1, en1, ho1, tm1, pi1) == notice_doc(
            k2,
            nm2,
            ur2,
            ve2,
            e2,
            cx2,
            cg2,
            ro2,
            en2,
            ho2,
            tm2,
            pi2,
        ),
    ensures
        k1 == k2,
        e1.class@ == e2.class@,
{
    let l0 = encode_utf8("{\"api_key\":"@);
    let l1 = encode_utf8(",\"notifier\":{\"name\":"@);
    let l2 = encode_utf8(",\"url\":"@);
    let l3 = encode_utf8(",\"version\":"@);
    let l4 = encode_utf8("},\"error\":"@);
    let m0 = encode_utf8("{\"class\":"@);
    let rest1 = lemma_doc_class_form(k1, nm1, ur1, ve1, e1, cx1, cg1, ro1, en1, ho1, tm1, pi1);
    let rest2 = lemma_doc_class_form(k2, nm2, ur2, ve2, e2, cx2, cg2, ro2, en2, ho2, tm2, pi2);
    let g9_1 = jstr(e1.class@) + rest1;
    let g8_1 = m0 + g9_1;
    let g7_1 = l4 + g8_1;
    let g6_1 = jstr(ve1) + g7_1;
    let g5_1 = l3 + g6_1;
    let g4_1 = jstr(ur1) + g5_1;
    let g3_1 = l2 + g4_1;
    let g2_1 = jstr(nm1) + g3_1;
    let g1_1 = l1 + g2_1;
    let g0_1 = jstr(k1) + g1_1;
    let g9_2 = jstr(e2.class@) + rest2;
    let g8_2 = m0 + g9_2;
    let g7_2 = l4 + g8_2;
    let g6_2 = jstr(ve2) + g7_2;
    let g5_2 = l3 + g6_2;
    let g4_2 = jstr(ur2) + g5_2;
    let g3_2 = l2 + g4_2;
    let g2_2 = jstr(nm2) + g3_2;
    let g1_2 = l1 + g2_2;
    let g0_2 = jstr(k2) + g1_2;
    lemma_cancel_prefix(l0, g0_1, g0_2);
    lemma_jstr_prefix(k1, k2, g1_1, g1_2);
    lemma_cancel_prefix(l1, g2_1, g2_2);
    lemma_jstr_prefix(nm1, nm2, g3_1, g3_2);
    lemma_cancel_prefix(l2, g4_1, g4_2);
    lemma_jstr_prefix(ur1, ur2, g5_1, g5_2);
    lemma_cancel_prefix(l3, g6_1, g6_2);
    lemma_jstr_prefix(ve1, ve2, g7_1, g7_2);
    lemma_cancel_prefix(l4, g8_1, g8_2);
    lemma_cancel_prefix(m0, g9_1, g9_2);
    lemma_jstr_prefix(e1.class@, e2.class@, rest1, rest2);
}

/// Law: the serialized document determines the notice's key fields.  Any two
/// payloads that encode to the same document agree on the api key, the
/// error's class, the stamped time and the process id — so decoding the
/// document recovers `error.class` and `server.pid` exactly.
pub proof fn lemma_doc_determines_fields(
    k1: Seq<char>,
    nm1: Seq<char>,
    ur1: Seq<char>,
    ve1: Seq<char>,
    e1: Error,
    cx1: Option<Vec<(String, String)>>,
    cg1: Seq<(String, String)>,
    ro1: Seq<char>,
    en1: Seq<char>,
    ho1: Seq<char>,
    tm1: u64,
    pi1: u32,
    k2: Seq<char>,
    nm2: Seq<char>,
    ur2: Seq<char>,
    ve2: Seq<char>,
    e2: Error,
    cx2: Option<Vec<(String, String)>>,
    cg2: Seq<(String, String)>,
    ro2: Seq<char>,
    en2: Seq<char>,
    ho2: Seq<char>,
    tm2: u64,
    pi2: u32,
)
    requires
        notice_doc(k1, nm1, ur1, ve1, e1, cx1, cg1, ro1, en1, ho1, tm1, pi1) == notice_doc(
            k2,
            nm2,
            ur2,
            ve2,
            e2,
            cx2,
            cg2,
            ro2,
            en2,
            ho2,
            tm2,
            pi2,
        ),
    ensures
        k1 == k2,
        e1.class@ == e2.class@,
        tm1 == tm2,
        pi1 == pi2,
{
    lemma_doc_suffix(
        k1, nm1, ur1, ve1, e1, cx1, cg1, ro1, en1, ho1, tm1, pi1,
        k2, nm2, ur2, ve2, e2, cx2, cg2, ro2, en2, ho2, tm2, pi2,
    );
    lemma_doc_prefix(
        k1, nm1, ur1, ve1, e1, cx1, cg1, ro1, en1, ho1, tm1, pi1,
        k2, nm2, ur2, ve2, e2, cx2, cg2, ro2, en2, ho2, tm2, pi2,
    );
}

/// Law: normalizing a chained error preserves the length of the cause chain;
/// the record carries exactly one cause entry per link, and no list at all
/// when the source has none.
pub proof fn lemma_chain_length_preserved(
    r: Error,
    description: String,
    display_chain: String,
    chain: Vec<String>,
    backtrace: Option<Vec<FrameData>>,
)
    requires
        is_normalized(
            r,
            SourceError::Chained { description, display_chain, chain, backtrace },
        ),
    ensures
        match r.causes {
            Option::Some(cs) => cs.len() == chain@.len(),
            Option::None => chain@.len() == 0,
        },
{
}

/// Law: a normalized record always carries a class and a message, whatever
/// the source shape; only the nested records of a cause chain, whose source
/// links carry no message of their own, leave the message out.
pub proof fn lemma_normalized_has_message(r: Error, source: SourceError)
    requires
        is_normalized(r, source),
    ensures
        r.message is Some,
{
}

} // verus!
