//! The durable record format of a job: one self-delimiting byte record per
//! job, written through on every mutation and read back on process start.
//!
//! A record carries a version byte, the fixed-size fields, the lengths of
//! the four variable strings, the string payloads, and a trailing
//! extension region whose length is declared but whose content is ignored
//! on read — a reader of this version tolerates fields added by a later
//! one.  Where the bytes live — file, object store — is the embedding
//! process's concern; the encoding and its decoding are verified here,
//! with a proved round trip.

use vstd::bytes::lemma_auto_spec_u128_to_from_le_bytes;
use vstd::bytes::lemma_auto_spec_u32_to_from_le_bytes;
use vstd::bytes::lemma_auto_spec_u64_to_from_le_bytes;
use vstd::bytes::spec_u128_from_le_bytes;
use vstd::bytes::spec_u128_to_le_bytes;
use vstd::bytes::spec_u32_from_le_bytes;
use vstd::bytes::spec_u32_to_le_bytes;
use vstd::bytes::spec_u64_from_le_bytes;
use vstd::bytes::spec_u64_to_le_bytes;
use vstd::bytes::u128_from_le_bytes;
use vstd::bytes::u128_to_le_bytes;
use vstd::bytes::u32_from_le_bytes;
use vstd::bytes::u32_to_le_bytes;
use vstd::bytes::u64_from_le_bytes;
use vstd::bytes::u64_to_le_bytes;
use vstd::prelude::*;
use vstd::string::StringSliceAdditionalSpecFns;
use vstd::utf8::decode_utf8;
use vstd::utf8::encode_utf8;
use vstd::utf8::valid_utf8;

use crate::batch::all_distinct;
use crate::batch::BatchJob;
use crate::batch::BatchStatus;
use crate::batch::BatchView;
use crate::batch::Priority;
use crate::job::ConvertOptions;
use crate::job::Job;
use crate::job::JobStatus;
use crate::job::Progress;

verus! {

/// The record format version this module writes.
pub const RECORD_VERSION: u8 = 1;

/// Bytes before the variable-length string payloads.
pub const RECORD_HEADER_LEN: usize = 116;

/// The mathematical value of a stored job: strings as character
/// sequences.
#[verifier::ext_equal]
pub ghost struct JobRecord {
    pub id: u128,
    pub input_filename: Seq<char>,
    pub options: ConvertOptions,
    pub status: JobStatus,
    pub progress: Option<ProgressRecord>,
    pub created_at: u64,
    pub started_at: Option<u64>,
    pub completed_at: Option<u64>,
    pub output_path: Option<Seq<char>>,
    pub error: Option<Seq<char>>,
    pub retry_of: Option<u128>,
}

/// The mathematical value of a stored progress snapshot.
#[verifier::ext_equal]
pub ghost struct ProgressRecord {
    pub current_step: u32,
    pub total_steps: u32,
    pub percent: u32,
    pub step_name: Seq<char>,
}

/// The record a job reads as.
pub open spec fn record_of(j: Job) -> JobRecord {
    JobRecord {
        id: j.id,
        input_filename: j.input_filename@,
        options: j.options,
        status: j.status,
        progress: match j.progress {
            Some(p) => Some(ProgressRecord {
                current_step: p.current_step,
                total_steps: p.total_steps,
                percent: p.percent,
                step_name: p.step_name@,
            }),
            None => None,
        },
        created_at: j.created_at,
        started_at: j.started_at,
        completed_at: j.completed_at,
        output_path: match j.output_path {
            Some(s) => Some(s@),
            None => None,
        },
        error: match j.error {
            Some(s) => Some(s@),
            None => None,
        },
        retry_of: j.retry_of,
    }
}

impl ProgressRecord {
    /// The progress invariant, at the record.
    pub open spec fn wf(self) -> bool {
        &&& self.total_steps >= 1
        &&& self.current_step <= self.total_steps
        &&& self.percent == self.current_step as int * 100 / self.total_steps as int
    }
}

impl JobRecord {
    /// The job invariant, at the record.
    pub open spec fn wf(self) -> bool {
        &&& (self.status == JobStatus::Queued ==> self.started_at.is_none()
            && self.completed_at.is_none())
        &&& (self.status == JobStatus::Processing ==> self.started_at.is_some()
            && self.completed_at.is_none())
        &&& (self.status.is_terminal() ==> self.completed_at.is_some())
        &&& (self.status == JobStatus::Completed ==> self.started_at.is_some()
            && self.output_path.is_some())
        &&& (self.status == JobStatus::Failed ==> self.error.is_some())
        &&& (self.progress matches Some(p) ==> p.wf())
    }
}

/// The byte a status is stored as.
pub open spec fn status_code(st: JobStatus) -> u8 {
    match st {
        JobStatus::Queued => 0u8,
        JobStatus::Processing => 1u8,
        JobStatus::Completed => 2u8,
        JobStatus::Failed => 3u8,
        JobStatus::Cancelled => 4u8,
    }
}

/// The status a byte reads as.
pub open spec fn status_of_code(b: u8) -> Option<JobStatus> {
    if b == 0 {
        Some(JobStatus::Queued)
    } else if b == 1 {
        Some(JobStatus::Processing)
    } else if b == 2 {
        Some(JobStatus::Completed)
    } else if b == 3 {
        Some(JobStatus::Failed)
    } else if b == 4 {
        Some(JobStatus::Cancelled)
    } else {
        None
    }
}

/// One byte for one flag.
pub open spec fn flag_byte(b: bool) -> u8 {
    if b {
        1u8
    } else {
        0u8
    }
}

/// A stored optional number: its value, or zero when absent.
pub open spec fn stored_u64(o: Option<u64>) -> u64 {
    match o {
        Some(v) => v,
        None => 0u64,
    }
}

/// A stored optional id: its value, or zero when absent.
pub open spec fn stored_u128(o: Option<u128>) -> u128 {
    match o {
        Some(v) => v,
        None => 0u128,
    }
}

/// The characters a stored optional string holds: empty when absent.
pub open spec fn stored_chars(o: Option<String>) -> Seq<char> {
    match o {
        Some(s) => s@,
        None => Seq::empty(),
    }
}

/// The stored progress numbers: zeros when absent.
pub open spec fn stored_progress_nums(o: Option<Progress>) -> (u32, u32, u32) {
    match o {
        Some(p) => (p.current_step, p.total_steps, p.percent),
        None => (0u32, 0u32, 0u32),
    }
}

/// The stored progress step name: empty when absent.
pub open spec fn stored_progress_name(o: Option<Progress>) -> Seq<char> {
    match o {
        Some(p) => p.step_name@,
        None => Seq::empty(),
    }
}

/// The identity, status, creation time, options and start stamp of a
/// record: its first 43 bytes.
pub open spec fn record_header_a(j: Job) -> Seq<u8> {
    seq![RECORD_VERSION] + spec_u128_to_le_bytes(j.id) + seq![status_code(j.status)]
        + spec_u64_to_le_bytes(j.created_at) + spec_u32_to_le_bytes(j.options.dpi) + seq![
        flag_byte(j.options.deskew),
        flag_byte(j.options.upscale),
        flag_byte(j.options.ocr),
        flag_byte(j.options.advanced),
        flag_byte(j.started_at.is_some()),
    ] + spec_u64_to_le_bytes(stored_u64(j.started_at))
}

/// The completion stamp, lineage, presence flags and progress numbers of a
/// record: bytes 43 to 84.
pub open spec fn record_header_b(j: Job) -> Seq<u8> {
    seq![flag_byte(j.completed_at.is_some())] + spec_u64_to_le_bytes(stored_u64(j.completed_at))
        + seq![flag_byte(j.retry_of.is_some())] + spec_u128_to_le_bytes(stored_u128(j.retry_of))
        + seq![
        flag_byte(j.output_path.is_some()),
        flag_byte(j.error.is_some()),
        flag_byte(j.progress.is_some()),
    ] + spec_u32_to_le_bytes(stored_progress_nums(j.progress).0) + spec_u32_to_le_bytes(
        stored_progress_nums(j.progress).1,
    ) + spec_u32_to_le_bytes(stored_progress_nums(j.progress).2)
}

/// The four string lengths of a record: bytes 84 to 116.
pub open spec fn record_header_c(j: Job) -> Seq<u8> {
    spec_u64_to_le_bytes(encode_utf8(stored_progress_name(j.progress)).len() as u64)
        + spec_u64_to_le_bytes(encode_utf8(j.input_filename@).len() as u64)
        + spec_u64_to_le_bytes(encode_utf8(stored_chars(j.output_path)).len() as u64)
        + spec_u64_to_le_bytes(encode_utf8(stored_chars(j.error)).len() as u64)
}

/// The fixed-size part of a job's record.
pub open spec fn record_header(j: Job) -> Seq<u8> {
    record_header_a(j) + record_header_b(j) + record_header_c(j)
}

/// A job's full record: header, string payloads, and an empty extension
/// region.
pub open spec fn record_bytes(j: Job) -> Seq<u8> {
    record_header(j) + encode_utf8(stored_progress_name(j.progress)) + encode_utf8(
        j.input_filename@,
    ) + encode_utf8(stored_chars(j.output_path)) + encode_utf8(stored_chars(j.error))
        + spec_u64_to_le_bytes(0)
}

/// Whether every string of the job fits its length field.
pub open spec fn record_encodable(j: Job) -> bool {
    &&& encode_utf8(stored_progress_name(j.progress)).len() <= u64::MAX
    &&& encode_utf8(j.input_filename@).len() <= u64::MAX
    &&& encode_utf8(stored_chars(j.output_path)).len() <= u64::MAX
    &&& encode_utf8(stored_chars(j.error)).len() <= u64::MAX
}

/// A record parses to the stored job, or to nothing when malformed: too
/// short, an unknown version or status, lengths that disagree with the
/// byte count, invalid text, or a job that breaks the job invariant.
/// Bytes in the extension region are ignored.
pub open spec fn parse_record(s: Seq<u8>) -> Option<JobRecord> {
    if s.len() < RECORD_HEADER_LEN {
        None
    } else if s[0] != RECORD_VERSION {
        None
    } else {
        match status_of_code(s[17]) {
            None => None,
            Some(status) => {
                let nl = spec_u64_from_le_bytes(s.subrange(84, 92)) as int;
                let fl = spec_u64_from_le_bytes(s.subrange(92, 100)) as int;
                let ol = spec_u64_from_le_bytes(s.subrange(100, 108)) as int;
                let el = spec_u64_from_le_bytes(s.subrange(108, 116)) as int;
                let o1 = RECORD_HEADER_LEN as int;
                let o2 = o1 + nl;
                let o3 = o2 + fl;
                let o4 = o3 + ol;
                let o5 = o4 + el;
                if s.len() < o5 + 8 {
                    None
                } else if s.len() != o5 + 8 + spec_u64_from_le_bytes(s.subrange(o5, o5 + 8)) {
                    None
                } else {
                    let name_bytes = s.subrange(o1, o2);
                    let filename_bytes = s.subrange(o2, o3);
                    let output_bytes = s.subrange(o3, o4);
                    let error_bytes = s.subrange(o4, o5);
                    if !valid_utf8(name_bytes) || !valid_utf8(filename_bytes) || !valid_utf8(
                        output_bytes,
                    ) || !valid_utf8(error_bytes) {
                        None
                    } else {
                        let rec = JobRecord {
                            id: spec_u128_from_le_bytes(s.subrange(1, 17)),
                            input_filename: decode_utf8(filename_bytes),
                            options: ConvertOptions {
                                dpi: spec_u32_from_le_bytes(s.subrange(26, 30)),
                                deskew: s[30] != 0,
                                upscale: s[31] != 0,
                                ocr: s[32] != 0,
                                advanced: s[33] != 0,
                            },
                            status,
                            progress: if s[71] != 0 {
                                Some(ProgressRecord {
                                    current_step: spec_u32_from_le_bytes(s.subrange(72, 76)),
                                    total_steps: spec_u32_from_le_bytes(s.subrange(76, 80)),
                                    percent: spec_u32_from_le_bytes(s.subrange(80, 84)),
                                    step_name: decode_utf8(name_bytes),
                                })
                            } else {
                                None
                            },
                            created_at: spec_u64_from_le_bytes(s.subrange(18, 26)),
                            started_at: if s[34] != 0 {
                                Some(spec_u64_from_le_bytes(s.subrange(35, 43)))
                            } else {
                                None
                            },
                            completed_at: if s[43] != 0 {
                                Some(spec_u64_from_le_bytes(s.subrange(44, 52)))
                            } else {
                                None
                            },
                            output_path: if s[69] != 0 {
                                Some(decode_utf8(output_bytes))
                            } else {
                                None
                            },
                            error: if s[70] != 0 {
                                Some(decode_utf8(error_bytes))
                            } else {
                                None
                            },
                            retry_of: if s[52] != 0 {
                                Some(spec_u128_from_le_bytes(s.subrange(53, 69)))
                            } else {
                                None
                            },
                        };
                        if rec.wf() {
                            Some(rec)
                        } else {
                            None
                        }
                    }
                }
            },
        }
    }
}

/// The UTF-8 bytes of a string slice, as an owned buffer.
fn bytes_of_str(s: &str) -> (r: Vec<u8>)
    ensures
        r@ == s.spec_bytes(),
{
    let mut r: Vec<u8> = Vec::new();
    r.extend_from_slice(s.as_bytes());
    proof {
        assert forall|i: int| 0 <= i < r@.len() implies r@[i] == s.spec_bytes()[i] by {}
        assert(r@ =~= s.spec_bytes());
    }
    r
}

/// Relies on `String::from_utf8`: it succeeds exactly on valid UTF-8 and
/// the returned string's bytes are the input bytes.
#[verifier::external_body]
fn string_from_bytes(bytes: Vec<u8>) -> (r: Option<String>)
    ensures
        r.is_some() == valid_utf8(bytes@),
        r matches Some(s) ==> s@ == decode_utf8(bytes@),
{
    String::from_utf8(bytes).ok()
}

/// The executable status byte.
fn status_byte(st: JobStatus) -> (b: u8)
    ensures
        b == status_code(st),
{
    match st {
        JobStatus::Queued => 0,
        JobStatus::Processing => 1,
        JobStatus::Completed => 2,
        JobStatus::Failed => 3,
        JobStatus::Cancelled => 4,
    }
}

/// The executable flag byte.
fn byte_of_flag(b: bool) -> (r: u8)
    ensures
        r == flag_byte(b),
{
    if b {
        1
    } else {
        0
    }
}

/// Serialize the first 43 bytes of a record.
fn encode_header_a(j: &Job) -> (r: Vec<u8>)
    ensures
        r@ == record_header_a(*j),
{
    let mut out: Vec<u8> = Vec::new();
    out.push(RECORD_VERSION);
    let mut part = u128_to_le_bytes(j.id);
    out.append(&mut part);
    out.push(status_byte(j.status));
    let mut part = u64_to_le_bytes(j.created_at);
    out.append(&mut part);
    let mut part = u32_to_le_bytes(j.options.dpi);
    out.append(&mut part);
    out.push(byte_of_flag(j.options.deskew));
    out.push(byte_of_flag(j.options.upscale));
    out.push(byte_of_flag(j.options.ocr));
    out.push(byte_of_flag(j.options.advanced));
    out.push(byte_of_flag(j.started_at.is_some()));
    let mut part = u64_to_le_bytes(match j.started_at {
        Some(v) => v,
        None => 0,
    });
    out.append(&mut part);
    proof {
        assert(out@ =~= record_header_a(*j));
    }
    out
}

/// Serialize bytes 43 to 84 of a record.
fn encode_header_b(j: &Job) -> (r: Vec<u8>)
    ensures
        r@ == record_header_b(*j),
{
    let (pcur, ptot, ppct) = match &j.progress {
        Some(p) => (p.current_step, p.total_steps, p.percent),
        None => (0, 0, 0),
    };
    let mut out: Vec<u8> = Vec::new();
    out.push(byte_of_flag(j.completed_at.is_some()));
    let mut part = u64_to_le_bytes(match j.completed_at {
        Some(v) => v,
        None => 0,
    });
    out.append(&mut part);
    out.push(byte_of_flag(j.retry_of.is_some()));
    let mut part = u128_to_le_bytes(match j.retry_of {
        Some(v) => v,
        None => 0,
    });
    out.append(&mut part);
    out.push(byte_of_flag(j.output_path.is_some()));
    out.push(byte_of_flag(j.error.is_some()));
    out.push(byte_of_flag(j.progress.is_some()));
    let mut part = u32_to_le_bytes(pcur);
    out.append(&mut part);
    let mut part = u32_to_le_bytes(ptot);
    out.append(&mut part);
    let mut part = u32_to_le_bytes(ppct);
    out.append(&mut part);
    proof {
        assert(out@ =~= record_header_b(*j));
    }
    out
}

/// Serialize one job into its durable record.
pub fn encode_job(j: &Job) -> (r: Vec<u8>)
    ensures
        r@ == record_bytes(*j),
{
    let mut name_bytes = match &j.progress {
        Some(p) => bytes_of_str(p.step_name.as_str()),
        None => Vec::new(),
    };
    let mut filename_bytes = bytes_of_str(j.input_filename.as_str());
    let mut output_bytes = match &j.output_path {
        Some(s) => bytes_of_str(s.as_str()),
        None => Vec::new(),
    };
    let mut error_bytes = match &j.error {
        Some(s) => bytes_of_str(s.as_str()),
        None => Vec::new(),
    };
    proof {
        assert(encode_utf8(Seq::<char>::empty()) =~= Seq::<u8>::empty());
        assert(name_bytes@ == encode_utf8(stored_progress_name(j.progress)));
        assert(output_bytes@ == encode_utf8(stored_chars(j.output_path)));
        assert(error_bytes@ == encode_utf8(stored_chars(j.error)));
    }

    let mut out = encode_header_a(j);
    let mut part = encode_header_b(j);
    out.append(&mut part);
    let mut part = u64_to_le_bytes(name_bytes.len() as u64);
    out.append(&mut part);
    let mut part = u64_to_le_bytes(filename_bytes.len() as u64);
    out.append(&mut part);
    let mut part = u64_to_le_bytes(output_bytes.len() as u64);
    out.append(&mut part);
    let mut part = u64_to_le_bytes(error_bytes.len() as u64);
    out.append(&mut part);
    proof {
        assert(out@ =~= record_header(*j));
    }
    out.append(&mut name_bytes);
    out.append(&mut filename_bytes);
    out.append(&mut output_bytes);
    out.append(&mut error_bytes);
    let mut part = u64_to_le_bytes(0);
    out.append(&mut part);
    proof {
        assert(out@ =~= record_bytes(*j));
    }
    out
}

/// An owned copy of a byte slice.
fn vec_of_slice(s: &[u8]) -> (r: Vec<u8>)
    ensures
        r@ == s@,
{
    let mut r: Vec<u8> = Vec::new();
    r.extend_from_slice(s);
    proof {
        assert forall|i: int| 0 <= i < r@.len() implies r@[i] == s@[i] by {}
        assert(r@ =~= s@);
    }
    r
}

/// Whether a job satisfies the job invariant, decided at run time.
fn check_job(j: &Job) -> (b: bool)
    ensures
        b == j.wf(),
{
    let status_ok = match j.status {
        JobStatus::Queued => j.started_at.is_none() && j.completed_at.is_none(),
        JobStatus::Processing => j.started_at.is_some() && j.completed_at.is_none(),
        JobStatus::Completed => j.completed_at.is_some() && j.started_at.is_some()
            && j.output_path.is_some(),
        JobStatus::Failed => j.completed_at.is_some() && j.error.is_some(),
        JobStatus::Cancelled => j.completed_at.is_some(),
    };
    if !status_ok {
        return false;
    }
    match &j.progress {
        Some(p) => {
            p.total_steps >= 1 && p.current_step <= p.total_steps && (p.current_step as u64)
                * 100 / (p.total_steps as u64) == p.percent as u64
        },
        None => true,
    }
}

/// Deserialize one durable record; nothing malformed is accepted, and
/// bytes in the extension region are ignored.
#[verifier::rlimit(100)]
pub fn decode_job(bytes: &[u8]) -> (r: Option<Job>)
    ensures
        r.is_some() == parse_record(bytes@).is_some(),
        r matches Some(j) ==> parse_record(bytes@) == Some(record_of(j)) && j.wf(),
{
    if bytes.len() < RECORD_HEADER_LEN {
        return None;
    }
    if bytes[0] != RECORD_VERSION {
        return None;
    }
    let status = match bytes[17] {
        0 => JobStatus::Queued,
        1 => JobStatus::Processing,
        2 => JobStatus::Completed,
        3 => JobStatus::Failed,
        4 => JobStatus::Cancelled,
        _ => {
            return None;
        },
    };
    let nl = u64_from_le_bytes(&bytes[84..92]);
    let fl = u64_from_le_bytes(&bytes[92..100]);
    let ol = u64_from_le_bytes(&bytes[100..108]);
    let el = u64_from_le_bytes(&bytes[108..116]);
    let total = bytes.len() as u128;
    let o2 = RECORD_HEADER_LEN as u128 + nl as u128;
    let o3 = o2 + fl as u128;
    let o4 = o3 + ol as u128;
    let o5 = o4 + el as u128;
    if total < o5 + 8 {
        return None;
    }
    let p5 = o5 as usize;
    let ext = u64_from_le_bytes(&bytes[p5..p5 + 8]);
    if total != o5 + 8 + ext as u128 {
        return None;
    }
    let p1 = RECORD_HEADER_LEN;
    let p2 = o2 as usize;
    let p3 = o3 as usize;
    let p4 = o4 as usize;
    let name_string = match string_from_bytes(vec_of_slice(&bytes[p1..p2])) {
        Some(s) => s,
        None => {
            return None;
        },
    };
    let filename = match string_from_bytes(vec_of_slice(&bytes[p2..p3])) {
        Some(s) => s,
        None => {
            return None;
        },
    };
    let output_string = match string_from_bytes(vec_of_slice(&bytes[p3..p4])) {
        Some(s) => s,
        None => {
            return None;
        },
    };
    let error_string = match string_from_bytes(vec_of_slice(&bytes[p4..p5])) {
        Some(s) => s,
        None => {
            return None;
        },
    };
    let job = Job {
        id: u128_from_le_bytes(&bytes[1..17]),
        input_filename: filename,
        options: ConvertOptions {
            dpi: u32_from_le_bytes(&bytes[26..30]),
            deskew: bytes[30] != 0,
            upscale: bytes[31] != 0,
            ocr: bytes[32] != 0,
            advanced: bytes[33] != 0,
        },
        status,
        progress: if bytes[71] != 0 {
            Some(
                Progress {
                    current_step: u32_from_le_bytes(&bytes[72..76]),
                    total_steps: u32_from_le_bytes(&bytes[76..80]),
                    percent: u32_from_le_bytes(&bytes[80..84]),
                    step_name: name_string,
                },
            )
        } else {
            None
        },
        created_at: u64_from_le_bytes(&bytes[18..26]),
        started_at: if bytes[34] != 0 {
            Some(u64_from_le_bytes(&bytes[35..43]))
        } else {
            None
        },
        completed_at: if bytes[43] != 0 {
            Some(u64_from_le_bytes(&bytes[44..52]))
        } else {
            None
        },
        output_path: if bytes[69] != 0 {
            Some(output_string)
        } else {
            None
        },
        error: if bytes[70] != 0 {
            Some(error_string)
        } else {
            None
        },
        retry_of: if bytes[52] != 0 {
            Some(u128_from_le_bytes(&bytes[53..69]))
        } else {
            None
        },
    };
    if !check_job(&job) {
        return None;
    }
    Some(job)
}

/// Where each fixed field of a record sits: the header reads back exactly
/// what was encoded.
#[verifier::rlimit(100)]
proof fn lemma_record_header_layout(j: Job)
    ensures
        ({
            let s = record_bytes(j);
            &&& s.len() == RECORD_HEADER_LEN + encode_utf8(stored_progress_name(j.progress)).len()
                + encode_utf8(j.input_filename@).len() + encode_utf8(
                stored_chars(j.output_path),
            ).len() + encode_utf8(stored_chars(j.error)).len() + 8
            &&& s[0] == RECORD_VERSION
            &&& s[17] == status_code(j.status)
            &&& s.subrange(1, 17) == spec_u128_to_le_bytes(j.id)
            &&& s.subrange(18, 26) == spec_u64_to_le_bytes(j.created_at)
            &&& s.subrange(26, 30) == spec_u32_to_le_bytes(j.options.dpi)
            &&& s[30] == flag_byte(j.options.deskew)
            &&& s[31] == flag_byte(j.options.upscale)
            &&& s[32] == flag_byte(j.options.ocr)
            &&& s[33] == flag_byte(j.options.advanced)
            &&& s[34] == flag_byte(j.started_at.is_some())
            &&& s.subrange(35, 43) == spec_u64_to_le_bytes(stored_u64(j.started_at))
            &&& s[43] == flag_byte(j.completed_at.is_some())
            &&& s.subrange(44, 52) == spec_u64_to_le_bytes(stored_u64(j.completed_at))
            &&& s[52] == flag_byte(j.retry_of.is_some())
            &&& s.subrange(53, 69) == spec_u128_to_le_bytes(stored_u128(j.retry_of))
            &&& s[69] == flag_byte(j.output_path.is_some())
            &&& s[70] == flag_byte(j.error.is_some())
            &&& s[71] == flag_byte(j.progress.is_some())
            &&& s.subrange(72, 76) == spec_u32_to_le_bytes(stored_progress_nums(j.progress).0)
            &&& s.subrange(76, 80) == spec_u32_to_le_bytes(stored_progress_nums(j.progress).1)
            &&& s.subrange(80, 84) == spec_u32_to_le_bytes(stored_progress_nums(j.progress).2)
            &&& s.subrange(84, 92) == spec_u64_to_le_bytes(encode_utf8(
                stored_progress_name(j.progress),
            ).len() as u64)
            &&& s.subrange(92, 100) == spec_u64_to_le_bytes(encode_utf8(
                j.input_filename@,
            ).len() as u64)
            &&& s.subrange(100, 108) == spec_u64_to_le_bytes(encode_utf8(
                stored_chars(j.output_path),
            ).len() as u64)
            &&& s.subrange(108, 116) == spec_u64_to_le_bytes(encode_utf8(
                stored_chars(j.error),
            ).len() as u64)
        }),
{
    lemma_auto_spec_u32_to_from_le_bytes();
    lemma_auto_spec_u64_to_from_le_bytes();
    lemma_auto_spec_u128_to_from_le_bytes();
    let s = record_bytes(j);
    assert(record_header_a(j).len() == 43);
    assert(record_header_b(j).len() == 41);
    assert(record_header_c(j).len() == 32);
    assert(s.subrange(1, 17) =~= spec_u128_to_le_bytes(j.id));
    assert(s.subrange(18, 26) =~= spec_u64_to_le_bytes(j.created_at));
    assert(s.subrange(26, 30) =~= spec_u32_to_le_bytes(j.options.dpi));
    assert(s.subrange(35, 43) =~= spec_u64_to_le_bytes(stored_u64(j.started_at)));
    assert(s.subrange(44, 52) =~= spec_u64_to_le_bytes(stored_u64(j.completed_at)));
    assert(s.subrange(53, 69) =~= spec_u128_to_le_bytes(stored_u128(j.retry_of)));
    assert(s.subrange(72, 76) =~= spec_u32_to_le_bytes(stored_progress_nums(j.progress).0));
    assert(s.subrange(76, 80) =~= spec_u32_to_le_bytes(stored_progress_nums(j.progress).1));
    assert(s.subrange(80, 84) =~= spec_u32_to_le_bytes(stored_progress_nums(j.progress).2));
    assert(s.subrange(84, 92) =~= spec_u64_to_le_bytes(encode_utf8(
        stored_progress_name(j.progress),
    ).len() as u64));
    assert(s.subrange(92, 100) =~= spec_u64_to_le_bytes(encode_utf8(
        j.input_filename@,
    ).len() as u64));
    assert(s.subrange(100, 108) =~= spec_u64_to_le_bytes(encode_utf8(
        stored_chars(j.output_path),
    ).len() as u64));
    assert(s.subrange(108, 116) =~= spec_u64_to_le_bytes(encode_utf8(
        stored_chars(j.error),
    ).len() as u64));
}

/// Where the string payloads and the extension length of a record sit.
#[verifier::rlimit(100)]
proof fn lemma_record_payload_layout(j: Job)
    ensures
        ({
            let s = record_bytes(j);
            let nl = encode_utf8(stored_progress_name(j.progress)).len() as int;
            let fl = encode_utf8(j.input_filename@).len() as int;
            let ol = encode_utf8(stored_chars(j.output_path)).len() as int;
            let el = encode_utf8(stored_chars(j.error)).len() as int;
            let o1 = RECORD_HEADER_LEN as int;
            &&& s.subrange(o1, o1 + nl) == encode_utf8(stored_progress_name(j.progress))
            &&& s.subrange(o1 + nl, o1 + nl + fl) == encode_utf8(j.input_filename@)
            &&& s.subrange(o1 + nl + fl, o1 + nl + fl + ol) == encode_utf8(
                stored_chars(j.output_path),
            )
            &&& s.subrange(o1 + nl + fl + ol, o1 + nl + fl + ol + el) == encode_utf8(
                stored_chars(j.error),
            )
            &&& s.subrange(o1 + nl + fl + ol + el, o1 + nl + fl + ol + el + 8)
                == spec_u64_to_le_bytes(0)
        }),
{
    lemma_auto_spec_u32_to_from_le_bytes();
    lemma_auto_spec_u64_to_from_le_bytes();
    lemma_auto_spec_u128_to_from_le_bytes();
    let s = record_bytes(j);
    let nl = encode_utf8(stored_progress_name(j.progress)).len() as int;
    let fl = encode_utf8(j.input_filename@).len() as int;
    let ol = encode_utf8(stored_chars(j.output_path)).len() as int;
    let el = encode_utf8(stored_chars(j.error)).len() as int;
    let o1 = RECORD_HEADER_LEN as int;
    assert(record_header(j).len() == 116);
    assert(s.subrange(o1, o1 + nl) =~= encode_utf8(stored_progress_name(j.progress)));
    assert(s.subrange(o1 + nl, o1 + nl + fl) =~= encode_utf8(j.input_filename@));
    assert(s.subrange(o1 + nl + fl, o1 + nl + fl + ol) =~= encode_utf8(
        stored_chars(j.output_path),
    ));
    assert(s.subrange(o1 + nl + fl + ol, o1 + nl + fl + ol + el) =~= encode_utf8(
        stored_chars(j.error),
    ));
    assert(s.subrange(o1 + nl + fl + ol + el, o1 + nl + fl + ol + el + 8)
        =~= spec_u64_to_le_bytes(0));
}

/// A stored record reads back as the job it was written from: decoding
/// inverts encoding, for every job that satisfies the job invariant and
/// whose strings fit their length fields.
#[verifier::rlimit(100)]
pub proof fn lemma_record_round_trip(j: Job)
    requires
        j.wf(),
        record_encodable(j),
    ensures
        parse_record(record_bytes(j)) == Some(record_of(j)),
{
    broadcast use vstd::utf8::encode_utf8_valid_utf8;
    broadcast use vstd::utf8::encode_utf8_decode_utf8;

    lemma_auto_spec_u32_to_from_le_bytes();
    lemma_auto_spec_u64_to_from_le_bytes();
    lemma_auto_spec_u128_to_from_le_bytes();
    lemma_record_header_layout(j);
    lemma_record_payload_layout(j);
    let s = record_bytes(j);
    let rec = record_of(j);
    assert(status_of_code(status_code(j.status)) == Some(j.status));
    match parse_record(s) {
        Some(parsed) => {
            assert(parsed =~= rec);
        },
        None => {
            assert(rec.wf());
            assert(false);
        },
    }
}

/// Bytes before the id list of a batch record.
pub const BATCH_HEADER_LEN: usize = 52;

/// The byte a batch status is stored as.
pub open spec fn batch_status_code(st: BatchStatus) -> u8 {
    match st {
        BatchStatus::Queued => 0u8,
        BatchStatus::Processing => 1u8,
        BatchStatus::Completed => 2u8,
        BatchStatus::Failed => 3u8,
        BatchStatus::Cancelled => 4u8,
    }
}

/// The batch status a byte reads as.
pub open spec fn batch_status_of_code(b: u8) -> Option<BatchStatus> {
    if b == 0 {
        Some(BatchStatus::Queued)
    } else if b == 1 {
        Some(BatchStatus::Processing)
    } else if b == 2 {
        Some(BatchStatus::Completed)
    } else if b == 3 {
        Some(BatchStatus::Failed)
    } else if b == 4 {
        Some(BatchStatus::Cancelled)
    } else {
        None
    }
}

/// The byte a priority is stored as.
pub open spec fn priority_code(p: Priority) -> u8 {
    match p {
        Priority::Low => 0u8,
        Priority::Normal => 1u8,
        Priority::High => 2u8,
    }
}

/// The priority a byte reads as.
pub open spec fn priority_of_code(b: u8) -> Option<Priority> {
    if b == 0 {
        Some(Priority::Low)
    } else if b == 1 {
        Some(Priority::Normal)
    } else if b == 2 {
        Some(Priority::High)
    } else {
        None
    }
}

/// The constituent id list as bytes, sixteen per id, in order.
pub open spec fn ids_bytes(ids: Seq<u128>) -> Seq<u8>
    decreases ids.len(),
{
    if ids.len() == 0 {
        Seq::empty()
    } else {
        ids_bytes(ids.drop_last()) + spec_u128_to_le_bytes(ids.last())
    }
}

/// The id list read back from its byte region.
pub open spec fn parse_ids(region: Seq<u8>) -> Seq<u128>
    decreases region.len(),
{
    if region.len() < 16 {
        Seq::empty()
    } else {
        parse_ids(region.take(region.len() - 16)).push(
            spec_u128_from_le_bytes(region.subrange(region.len() - 16, region.len() as int)),
        )
    }
}

/// Sixteen bytes per id.
pub proof fn lemma_ids_bytes_len(ids: Seq<u128>)
    ensures
        ids_bytes(ids).len() == 16 * ids.len(),
    decreases ids.len(),
{
    lemma_auto_spec_u128_to_from_le_bytes();
    if ids.len() > 0 {
        lemma_ids_bytes_len(ids.drop_last());
    }
}

/// The id region reads back as the ids it was written from.
pub proof fn lemma_ids_round_trip(ids: Seq<u128>)
    ensures
        parse_ids(ids_bytes(ids)) == ids,
    decreases ids.len(),
{
    lemma_auto_spec_u128_to_from_le_bytes();
    lemma_ids_bytes_len(ids);
    if ids.len() > 0 {
        lemma_ids_bytes_len(ids.drop_last());
        let region = ids_bytes(ids);
        assert(region.take(region.len() - 16) =~= ids_bytes(ids.drop_last()));
        assert(region.subrange(region.len() - 16, region.len() as int)
            =~= spec_u128_to_le_bytes(ids.last()));
        lemma_ids_round_trip(ids.drop_last());
        assert(parse_ids(region) =~= ids);
    } else {
        assert(parse_ids(ids_bytes(ids)) =~= ids);
    }
}

/// The fixed-size part of a batch's record.
pub open spec fn batch_header(b: BatchView) -> Seq<u8> {
    seq![RECORD_VERSION] + spec_u128_to_le_bytes(b.id) + seq![
        batch_status_code(b.status),
        priority_code(b.priority),
    ] + spec_u64_to_le_bytes(b.created_at) + spec_u32_to_le_bytes(b.options.dpi) + seq![
        flag_byte(b.options.deskew),
        flag_byte(b.options.upscale),
        flag_byte(b.options.ocr),
        flag_byte(b.options.advanced),
        flag_byte(b.started_at.is_some()),
    ] + spec_u64_to_le_bytes(stored_u64(b.started_at)) + spec_u64_to_le_bytes(
        b.job_ids.len() as u64,
    )
}

/// A batch's full record: header, id list, and an empty extension region.
pub open spec fn batch_record_bytes(b: BatchView) -> Seq<u8> {
    batch_header(b) + ids_bytes(b.job_ids) + spec_u64_to_le_bytes(0)
}

/// A batch record parses to the stored batch, or to nothing when
/// malformed.  Bytes in the extension region are ignored.
pub open spec fn parse_batch_record(s: Seq<u8>) -> Option<BatchView> {
    if s.len() < BATCH_HEADER_LEN {
        None
    } else if s[0] != RECORD_VERSION {
        None
    } else {
        match (batch_status_of_code(s[17]), priority_of_code(s[18])) {
            (Some(status), Some(priority)) => {
                let n = spec_u64_from_le_bytes(s.subrange(44, 52)) as int;
                let o2 = BATCH_HEADER_LEN + 16 * n;
                if s.len() < o2 + 8 {
                    None
                } else if s.len() != o2 + 8 + spec_u64_from_le_bytes(s.subrange(o2, o2 + 8)) {
                    None
                } else {
                    let rec = BatchView {
                        id: spec_u128_from_le_bytes(s.subrange(1, 17)),
                        options: ConvertOptions {
                            dpi: spec_u32_from_le_bytes(s.subrange(27, 31)),
                            deskew: s[31] != 0,
                            upscale: s[32] != 0,
                            ocr: s[33] != 0,
                            advanced: s[34] != 0,
                        },
                        priority,
                        status,
                        job_ids: parse_ids(s.subrange(BATCH_HEADER_LEN as int, o2 as int)),
                        created_at: spec_u64_from_le_bytes(s.subrange(19, 27)),
                        started_at: if s[35] != 0 {
                            Some(spec_u64_from_le_bytes(s.subrange(36, 44)))
                        } else {
                            None
                        },
                    };
                    if rec.wf() {
                        Some(rec)
                    } else {
                        None
                    }
                }
            },
            _ => None,
        }
    }
}

/// The executable batch status byte.
fn batch_status_byte(st: BatchStatus) -> (b: u8)
    ensures
        b == batch_status_code(st),
{
    match st {
        BatchStatus::Queued => 0,
        BatchStatus::Processing => 1,
        BatchStatus::Completed => 2,
        BatchStatus::Failed => 3,
        BatchStatus::Cancelled => 4,
    }
}

/// The executable priority byte.
fn priority_byte(p: Priority) -> (b: u8)
    ensures
        b == priority_code(p),
{
    match p {
        Priority::Low => 0,
        Priority::Normal => 1,
        Priority::High => 2,
    }
}

/// Serialize one batch into its durable record.
#[verifier::rlimit(100)]
pub fn encode_batch(b: &BatchJob) -> (r: Vec<u8>)
    ensures
        r@ == batch_record_bytes(b@),
{
    let mut out: Vec<u8> = Vec::new();
    out.push(RECORD_VERSION);
    let mut part = u128_to_le_bytes(b.id);
    out.append(&mut part);
    out.push(batch_status_byte(b.status));
    out.push(priority_byte(b.priority));
    let mut part = u64_to_le_bytes(b.created_at);
    out.append(&mut part);
    let mut part = u32_to_le_bytes(b.options.dpi);
    out.append(&mut part);
    out.push(byte_of_flag(b.options.deskew));
    out.push(byte_of_flag(b.options.upscale));
    out.push(byte_of_flag(b.options.ocr));
    out.push(byte_of_flag(b.options.advanced));
    out.push(byte_of_flag(b.started_at.is_some()));
    let mut part = u64_to_le_bytes(match b.started_at {
        Some(v) => v,
        None => 0,
    });
    out.append(&mut part);
    let mut part = u64_to_le_bytes(b.job_ids.len() as u64);
    out.append(&mut part);
    proof {
        assert(out@ =~= batch_header(b@));
    }
    let mut i: usize = 0;
    while i < b.job_ids.len()
        invariant
            0 <= i <= b.job_ids@.len(),
            out@ == batch_header(b@) + ids_bytes(b.job_ids@.take(i as int)),
        decreases b.job_ids@.len() - i,
    {
        proof {
            assert(b.job_ids@.take(i + 1).drop_last() =~= b.job_ids@.take(i as int));
            assert(b.job_ids@.take(i + 1).last() == b.job_ids@[i as int]);
        }
        let mut part = u128_to_le_bytes(b.job_ids[i]);
        out.append(&mut part);
        proof {
            assert(out@ =~= batch_header(b@) + ids_bytes(b.job_ids@.take(i + 1)));
        }
        i += 1;
    }
    proof {
        assert(b.job_ids@.take(b.job_ids@.len() as int) =~= b.job_ids@);
    }
    let mut part = u64_to_le_bytes(0);
    out.append(&mut part);
    proof {
        assert(out@ =~= batch_record_bytes(b@));
    }
    out
}

/// Whether a batch satisfies the batch invariant, decided at run time.
fn check_batch(b: &BatchJob) -> (r: bool)
    ensures
        r == b@.wf(),
{
    let status_ok = match b.status {
        BatchStatus::Queued => b.started_at.is_none(),
        BatchStatus::Processing => b.started_at.is_some(),
        _ => true,
    };
    if !status_ok {
        return false;
    }
    let mut i: usize = 0;
    while i < b.job_ids.len()
        invariant
            0 <= i <= b.job_ids@.len(),
            forall|a: int, c: int| 0 <= a < c < i ==> b.job_ids@[a] != b.job_ids@[c],
        decreases b.job_ids@.len() - i,
    {
        let mut k: usize = 0;
        while k < i
            invariant
                0 <= k <= i < b.job_ids@.len(),
                forall|a: int| 0 <= a < k ==> b.job_ids@[a] != b.job_ids@[i as int],
            decreases i - k,
        {
            if b.job_ids[k] == b.job_ids[i] {
                return false;
            }
            k += 1;
        }
        i += 1;
    }
    true
}

/// Deserialize one durable batch record; nothing malformed is accepted,
/// and bytes in the extension region are ignored.
#[verifier::rlimit(100)]
pub fn decode_batch(bytes: &[u8]) -> (r: Option<BatchJob>)
    ensures
        r.is_some() == parse_batch_record(bytes@).is_some(),
        r matches Some(b) ==> parse_batch_record(bytes@) == Some(b@) && b.wf(),
{
    if bytes.len() < BATCH_HEADER_LEN {
        return None;
    }
    if bytes[0] != RECORD_VERSION {
        return None;
    }
    let status = match bytes[17] {
        0 => BatchStatus::Queued,
        1 => BatchStatus::Processing,
        2 => BatchStatus::Completed,
        3 => BatchStatus::Failed,
        4 => BatchStatus::Cancelled,
        _ => {
            return None;
        },
    };
    let priority = match bytes[18] {
        0 => Priority::Low,
        1 => Priority::Normal,
        2 => Priority::High,
        _ => {
            return None;
        },
    };
    let n = u64_from_le_bytes(&bytes[44..52]);
    let total = bytes.len() as u128;
    let o2 = BATCH_HEADER_LEN as u128 + 16 * (n as u128);
    if total < o2 + 8 {
        return None;
    }
    let p2 = o2 as usize;
    let ext = u64_from_le_bytes(&bytes[p2..p2 + 8]);
    if total != o2 + 8 + ext as u128 {
        return None;
    }
    let len = bytes.len();
    proof {
        assert(BATCH_HEADER_LEN as int + 16 * (n as int) + 8 <= len as int);
        assert(n as int <= len as int);
    }
    let count = n as usize;
    let ghost region = bytes@.subrange(BATCH_HEADER_LEN as int, p2 as int);
    let mut job_ids: Vec<u128> = Vec::new();
    let mut i: usize = 0;
    while i < count
        invariant
            count == n as int,
            len == bytes@.len(),
            bytes@.len() >= BATCH_HEADER_LEN + 16 * (n as int) + 8,
            region == bytes@.subrange(BATCH_HEADER_LEN as int, BATCH_HEADER_LEN + 16 * (
            n as int)),
            0 <= i <= count,
            job_ids@ == parse_ids(region.take(16 * i as int)),
            job_ids@.len() == i,
        decreases count - i,
    {
        let lo = BATCH_HEADER_LEN + 16 * i;
        let id = u128_from_le_bytes(&bytes[lo..lo + 16]);
        job_ids.push(id);
        proof {
            let t = region.take(16 * (i + 1));
            assert(t.take(t.len() - 16) =~= region.take(16 * i as int));
            assert(t.subrange(t.len() - 16, t.len() as int) =~= bytes@.subrange(
                lo as int,
                lo + 16,
            ));
        }
        i += 1;
    }
    proof {
        assert(region.take(16 * (count as int)) =~= region);
    }
    let batch = BatchJob {
        id: u128_from_le_bytes(&bytes[1..17]),
        options: ConvertOptions {
            dpi: u32_from_le_bytes(&bytes[27..31]),
            deskew: bytes[31] != 0,
            upscale: bytes[32] != 0,
            ocr: bytes[33] != 0,
            advanced: bytes[34] != 0,
        },
        priority,
        status,
        job_ids,
        created_at: u64_from_le_bytes(&bytes[19..27]),
        started_at: if bytes[35] != 0 {
            Some(u64_from_le_bytes(&bytes[36..44]))
        } else {
            None
        },
    };
    if !check_batch(&batch) {
        return None;
    }
    Some(batch)
}

/// A stored batch record reads back as the batch it was written from,
/// for every batch that satisfies the batch invariant with an id list
/// that fits its count field.
#[verifier::rlimit(100)]
pub proof fn lemma_batch_record_round_trip(b: BatchView)
    requires
        b.wf(),
        b.job_ids.len() <= u64::MAX,
    ensures
        parse_batch_record(batch_record_bytes(b)) == Some(b),
{
    lemma_auto_spec_u32_to_from_le_bytes();
    lemma_auto_spec_u64_to_from_le_bytes();
    lemma_auto_spec_u128_to_from_le_bytes();
    lemma_ids_bytes_len(b.job_ids);
    lemma_ids_round_trip(b.job_ids);
    let s = batch_record_bytes(b);
    let n = b.job_ids.len() as int;
    assert(batch_header(b).len() == 52);
    assert(s.subrange(1, 17) =~= spec_u128_to_le_bytes(b.id));
    assert(s.subrange(19, 27) =~= spec_u64_to_le_bytes(b.created_at));
    assert(s.subrange(27, 31) =~= spec_u32_to_le_bytes(b.options.dpi));
    assert(s.subrange(36, 44) =~= spec_u64_to_le_bytes(stored_u64(b.started_at)));
    assert(s.subrange(44, 52) =~= spec_u64_to_le_bytes(b.job_ids.len() as u64));
    assert(s.subrange(52, 52 + 16 * n) =~= ids_bytes(b.job_ids));
    assert(s.subrange(52 + 16 * n, 52 + 16 * n + 8) =~= spec_u64_to_le_bytes(0));
    match parse_batch_record(s) {
        Some(parsed) => {
            assert(parsed =~= b);
        },
        None => {
            assert(false);
        },
    }
}

} // verus!
