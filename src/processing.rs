//! A small text processor with validation, a value borrowed together with
//! string metadata, and an e-mail shape check.
use vstd::prelude::*;
use vstd::string::StringSliceAdditionalSpecFns;
use crate::text::contains;

verus! {

/// Why processing failed.
#[derive(Clone, Copy, Debug, PartialEq, Eq, Structural)]
pub enum ProcessError {
    /// The input is empty, or 1000 bytes or longer; or an id is 0.
    Validation,
    /// An id is out of the known range.
    Unknown,
}

/// Wraps text between a prefix and a suffix.
pub struct SimpleProcessor {
    pub prefix: String,
    pub suffix: String,
}

/// Input a processor accepts: not empty and under 1000 bytes.
pub open spec fn acceptable(data: Seq<u8>) -> bool {
    0 < data.len() < 1000
}

impl SimpleProcessor {
    pub fn new(prefix: &str, suffix: &str) -> (r: SimpleProcessor)
        ensures
            r.prefix@ == prefix@,
            r.suffix@ == suffix@,
    {
        SimpleProcessor { prefix: prefix.to_owned(), suffix: suffix.to_owned() }
    }

    fn internal_process(&self, data: &str) -> (r: String)
        ensures
            r@ == self.prefix@ + data@ + self.suffix@,
    {
        let mut s = self.prefix.clone();
        s.append(data);
        s.append(self.suffix.as_str());
        s
    }

    pub fn validate(&self, data: &str) -> (r: bool)
        ensures
            r == acceptable(data.spec_bytes()),
    {
        let n = data.as_bytes().len();
        n > 0 && n < 1000
    }

    /// The data between prefix and suffix, when it is acceptable.
    pub fn process(&self, data: &str) -> (r: Result<String, ProcessError>)
        ensures
            acceptable(data.spec_bytes()) ==> (r matches Ok(s) && s@ == self.prefix@ + data@
                + self.suffix@),
            !acceptable(data.spec_bytes()) ==> r == Err::<String, ProcessError>(
                ProcessError::Validation,
            ),
    {
        if self.validate(data) {
            Ok(self.internal_process(data))
        } else {
            Err(ProcessError::Validation)
        }
    }

    /// Processes each item in order.
    pub fn batch_process(&self, items: &Vec<String>) -> (r: Vec<Result<String, ProcessError>>)
        ensures
            r@.len() == items@.len(),
            forall|i: int|
                #![trigger r@[i]]
                0 <= i < r@.len() ==> if acceptable(vstd::utf8::encode_utf8(items@[i]@)) {
                    r@[i] matches Ok(s) && s@ == self.prefix@ + items@[i]@ + self.suffix@
                } else {
                    r@[i] == Err::<String, ProcessError>(ProcessError::Validation)
                },
    {
        let mut out: Vec<Result<String, ProcessError>> = Vec::new();
        let mut i: usize = 0;
        while i < items.len()
            invariant
                i <= items@.len(),
                out@.len() == i,
                forall|j: int|
                    #![trigger out@[j]]
                    0 <= j < i ==> if acceptable(vstd::utf8::encode_utf8(items@[j]@)) {
                        out@[j] matches Ok(s) && s@ == self.prefix@ + items@[j]@ + self.suffix@
                    } else {
                        out@[j] == Err::<String, ProcessError>(ProcessError::Validation)
                    },
            decreases items@.len() - i,
        {
            out.push(self.process(items[i].as_str()));
            i = i + 1;
        }
        out
    }
}

/// A borrowed value with string metadata; a key holds one value.
pub struct BorrowedData<'a, T> {
    pub data: &'a T,
    pub metadata: Vec<(String, String)>,
}

pub open spec fn metadata_view(v: Seq<(String, String)>) -> Seq<(Seq<char>, Seq<char>)> {
    v.map_values(|p: (String, String)| (p.0@, p.1@))
}

pub open spec fn metadata_keys(v: Seq<(String, String)>) -> Seq<Seq<char>> {
    v.map_values(|p: (String, String)| p.0@)
}

impl<'a, T> BorrowedData<'a, T> {
    /// No key appears twice.
    pub open spec fn wf(&self) -> bool {
        metadata_keys(self.metadata@).no_duplicates()
    }

    pub fn new(data: &'a T) -> (r: BorrowedData<'a, T>)
        ensures
            r.wf(),
            r.data == data,
            r.metadata@.len() == 0,
    {
        let r = BorrowedData { data, metadata: Vec::new() };
        assert(metadata_keys(r.metadata@) =~= Seq::<Seq<char>>::empty());
        r
    }

    /// Sets `key` to `value`: replaces the value of a key that is there, else
    /// adds the pair at the end.
    pub fn with_metadata(self, key: &str, value: &str) -> (r: BorrowedData<'a, T>)
        requires
            self.wf(),
        ensures
            r.wf(),
            r.data == self.data,
            (exists|i: int| 0 <= i < self.metadata@.len() && #[trigger] self.metadata@[i].0@ == key@)
                ==> exists|i: int|
                0 <= i < self.metadata@.len() && self.metadata@[i].0@ == key@ && metadata_view(
                    r.metadata@,
                ) == metadata_view(self.metadata@).update(i, (key@, value@)),
            (forall|i: int| 0 <= i < self.metadata@.len() ==> #[trigger] self.metadata@[i].0@ != key@)
                ==> metadata_view(r.metadata@) == metadata_view(self.metadata@).push((key@, value@)),
    {
        let mut md = self.metadata;
        let ghost old_md = md@;
        let mut i: usize = 0;
        while i < md.len()
            invariant
                i <= md@.len(),
                md@ == old_md,
                old_md == self.metadata@,
                forall|j: int| 0 <= j < i ==> #[trigger] md@[j].0@ != key@,
                metadata_keys(old_md).no_duplicates(),
            decreases md@.len() - i,
        {
            if crate::text::bytes_eq(md[i].0.as_str().as_bytes(), key.as_bytes()) {
                proof {
                    vstd::utf8::encode_utf8_decode_utf8(md@[i as int].0@);
                    vstd::utf8::encode_utf8_decode_utf8(key@);
                    assert(self.metadata@[i as int].0@ == key@);
                }
                md.set(i, (key.to_owned(), value.to_owned()));
                proof {
                    assert(metadata_view(md@) =~= metadata_view(old_md).update(i as int, (key@, value@)));
                    assert(metadata_keys(md@) =~= metadata_keys(old_md));
                }
                return BorrowedData { data: self.data, metadata: md };
            }
            proof {
                if md@[i as int].0@ == key@ {
                    vstd::utf8::encode_utf8_decode_utf8(key@);
                }
            }
            i = i + 1;
        }
        md.push((key.to_owned(), value.to_owned()));
        proof {
            assert(metadata_view(md@) =~= metadata_view(old_md).push((key@, value@)));
            assert(metadata_keys(md@) =~= metadata_keys(old_md).push(key@));
        }
        BorrowedData { data: self.data, metadata: md }
    }

    pub fn get_data(&self) -> (r: &'a T)
        ensures
            r == self.data,
    {
        self.data
    }
}

/// The record text for a user id: ids 1 to 100 are known, 0 is invalid.
pub fn user_data(id: u64) -> (r: Result<String, ProcessError>)
    ensures
        id == 0 ==> r == Err::<String, ProcessError>(ProcessError::Validation),
        1 <= id <= 100 ==> (r matches Ok(s) && s@ == "User data for ID: "@ + crate::text::text_of(
            crate::universal::decimal_bytes(id as nat),
        )),
        id > 100 ==> r == Err::<String, ProcessError>(ProcessError::Unknown),
{
    if id == 0 {
        Err(ProcessError::Validation)
    } else if id <= 100 {
        let mut s = "User data for ID: ".to_owned();
        let digits = crate::universal::decimal_string(id);
        s.append(digits.as_str());
        Ok(s)
    } else {
        Err(ProcessError::Unknown)
    }
}

/// An address has the shape of an e-mail address: it holds an `@` and a `.`.
pub open spec fn email_shaped(s: Seq<u8>) -> bool {
    contains(s, "@".spec_bytes()) && contains(s, ".".spec_bytes())
}

pub fn validate_email(email: &str) -> (r: bool)
    ensures
        r == email_shaped(email.spec_bytes()),
{
    let b = email.as_bytes();
    crate::text::contains_bytes(b, "@".as_bytes()) && crate::text::contains_bytes(b, ".".as_bytes())
}

} // verus!
