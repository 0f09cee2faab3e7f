//! The file manager: classification of files by extension and the
//! storage statistics over a scanned listing. Directory walking itself
//! happens outside; this module owns the rules.

use vstd::prelude::*;

use crate::base::ManagerError;
use crate::strutil::str_eq;

verus! {

/// One scanned file.
#[derive(Debug)]
pub struct FileInfo {
    pub path: String,
    pub name: String,
    pub size: u64,
    pub file_type: String,
    pub modified: u64,
}

/// Field-for-field sameness of two file records.
pub open spec fn file_eq(a: FileInfo, b: FileInfo) -> bool {
    &&& a.path@ == b.path@
    &&& a.name@ == b.name@
    &&& a.size == b.size
    &&& a.file_type@ == b.file_type@
    &&& a.modified == b.modified
}

impl Clone for FileInfo {
    fn clone(&self) -> (r: Self)
        ensures
            file_eq(r, *self),
    {
        FileInfo {
            path: self.path.clone(),
            name: self.name.clone(),
            size: self.size,
            file_type: self.file_type.clone(),
            modified: self.modified,
        }
    }
}

/// Storage statistics over a listing.
#[derive(Debug)]
pub struct StorageStats {
    pub total_size: u64,
    pub used_size: u64,
    pub free_size: u64,
    pub file_count: u64,
    pub category_breakdown: Vec<(String, u64)>,
}

/// An ASCII letter folded to lower case; anything else stands.
pub open spec fn lower_char(c: char) -> char {
    if c == 'A' { 'a' }
    else if c == 'B' { 'b' }
    else if c == 'C' { 'c' }
    else if c == 'D' { 'd' }
    else if c == 'E' { 'e' }
    else if c == 'F' { 'f' }
    else if c == 'G' { 'g' }
    else if c == 'H' { 'h' }
    else if c == 'I' { 'i' }
    else if c == 'J' { 'j' }
    else if c == 'K' { 'k' }
    else if c == 'L' { 'l' }
    else if c == 'M' { 'm' }
    else if c == 'N' { 'n' }
    else if c == 'O' { 'o' }
    else if c == 'P' { 'p' }
    else if c == 'Q' { 'q' }
    else if c == 'R' { 'r' }
    else if c == 'S' { 's' }
    else if c == 'T' { 't' }
    else if c == 'U' { 'u' }
    else if c == 'V' { 'v' }
    else if c == 'W' { 'w' }
    else if c == 'X' { 'x' }
    else if c == 'Y' { 'y' }
    else if c == 'Z' { 'z' }
    else { c }
}

/// Fold an ASCII letter to lower case.
fn to_lower(c: char) -> (r: char)
    ensures
        r == lower_char(c),
{
    match c {
        'A' => 'a',
        'B' => 'b',
        'C' => 'c',
        'D' => 'd',
        'E' => 'e',
        'F' => 'f',
        'G' => 'g',
        'H' => 'h',
        'I' => 'i',
        'J' => 'j',
        'K' => 'k',
        'L' => 'l',
        'M' => 'm',
        'N' => 'n',
        'O' => 'o',
        'P' => 'p',
        'Q' => 'q',
        'R' => 'r',
        'S' => 's',
        'T' => 't',
        'U' => 'u',
        'V' => 'v',
        'W' => 'w',
        'X' => 'x',
        'Y' => 'y',
        'Z' => 'z',
        other => other,
    }
}

/// Does `s` end with `suffix`, ASCII letters compared without case?
pub open spec fn ends_with_ci(s: Seq<char>, suffix: Seq<char>) -> bool {
    s.len() >= suffix.len() && forall|j: int|
        0 <= j < suffix.len() ==> lower_char(#[trigger] s[s.len() - suffix.len() + j])
            == lower_char(suffix[j])
}

/// Check a case-insensitive suffix.
pub fn has_suffix_ci(s: &str, suffix: &str) -> (r: bool)
    ensures
        r == ends_with_ci(s@, suffix@),
{
    let n: usize = s.unicode_len();
    let m: usize = suffix.unicode_len();
    if m > n {
        return false;
    }
    let base: usize = n - m;
    let mut j: usize = 0;
    while j < m
        invariant
            n == s@.len(),
            m == suffix@.len(),
            m <= n,
            base == n - m,
            j <= m,
            forall|i: int|
                0 <= i < j ==> lower_char(#[trigger] s@[base + i]) == lower_char(suffix@[i]),
        decreases m - j,
    {
        if to_lower(s.get_char(base + j)) != to_lower(suffix.get_char(j)) {
            assert(lower_char(s@[s@.len() - suffix@.len() + j]) != lower_char(suffix@[j as int]));
            return false;
        }
        j = j + 1;
    }
    true
}

/// The category of a file name: by its extension, case-insensitively;
/// anything unrecognized is `other`.
pub open spec fn classify(name: Seq<char>) -> Seq<char> {
    if ends_with_ci(name, ".pdf"@) || ends_with_ci(name, ".doc"@) || ends_with_ci(name, ".docx"@)
        || ends_with_ci(name, ".txt"@) || ends_with_ci(name, ".xls"@) || ends_with_ci(
        name,
        ".xlsx"@,
    ) {
        "document"@
    } else if ends_with_ci(name, ".jpg"@) || ends_with_ci(name, ".png"@) || ends_with_ci(
        name,
        ".gif"@,
    ) || ends_with_ci(name, ".bmp"@) {
        "image"@
    } else if ends_with_ci(name, ".mp4"@) || ends_with_ci(name, ".avi"@) || ends_with_ci(
        name,
        ".mkv"@,
    ) || ends_with_ci(name, ".mov"@) {
        "video"@
    } else if ends_with_ci(name, ".mp3"@) || ends_with_ci(name, ".wav"@) || ends_with_ci(
        name,
        ".flac"@,
    ) || ends_with_ci(name, ".aac"@) {
        "audio"@
    } else if ends_with_ci(name, ".zip"@) || ends_with_ci(name, ".rar"@) || ends_with_ci(
        name,
        ".7z"@,
    ) || ends_with_ci(name, ".tar"@) {
        "archive"@
    } else {
        "other"@
    }
}

/// Saturating addition within `u64`.
pub open spec fn sat_add(a: nat, b: nat) -> nat {
    if a + b <= u64::MAX {
        (a + b) as nat
    } else {
        u64::MAX as nat
    }
}

/// The summed size of a listing, saturating.
pub open spec fn used_total(s: Seq<FileInfo>) -> nat
    decreases s.len(),
{
    if s.len() == 0 {
        0
    } else {
        sat_add(used_total(s.drop_last()), s.last().size as nat)
    }
}

/// The byte total recorded for one category: `None` until a file of
/// that category appears, then its saturating size sum.
pub open spec fn breakdown_of(s: Seq<FileInfo>, cat: Seq<char>) -> Option<nat>
    decreases s.len(),
{
    if s.len() == 0 {
        None
    } else {
        let prev = breakdown_of(s.drop_last(), cat);
        if classify(s.last().name@) == cat {
            Some(
                sat_add(
                    match prev {
                        Some(v) => v,
                        None => 0,
                    },
                    s.last().size as nat,
                ),
            )
        } else {
            prev
        }
    }
}

/// A recorded category total never exceeds `u64::MAX`.
proof fn lemma_breakdown_bounded(s: Seq<FileInfo>, cat: Seq<char>)
    ensures
        match breakdown_of(s, cat) {
            Some(v) => v <= u64::MAX,
            None => true,
        },
    decreases s.len(),
{
    if s.len() > 0 {
        lemma_breakdown_bounded(s.drop_last(), cat);
    }
}

/// The total recorded under the first entry keyed `cat`, if any.
pub open spec fn pairs_lookup(s: Seq<(String, u64)>, cat: Seq<char>) -> Option<u64>
    decreases s.len(),
{
    if s.len() == 0 {
        None
    } else if s[0].0@ == cat {
        Some(s[0].1)
    } else {
        pairs_lookup(s.drop_first(), cat)
    }
}

/// [`pairs_lookup`] is determined by a scan's findings.
proof fn lemma_pairs_lookup_at(s: Seq<(String, u64)>, cat: Seq<char>, i: int)
    requires
        0 <= i <= s.len(),
        forall|j: int| 0 <= j < i ==> s[j].0@ != cat,
        i < s.len() ==> s[i].0@ == cat,
    ensures
        pairs_lookup(s, cat) == if i < s.len() {
            Some(s[i].1)
        } else {
            None::<u64>
        },
    decreases s.len(),
{
    if s.len() == 0 {
    } else if i == 0 {
    } else {
        lemma_pairs_lookup_at(s.drop_first(), cat, i - 1);
    }
}

/// Replacing an entry's total changes exactly that key's lookup.
proof fn lemma_pairs_lookup_update(
    s: Seq<(String, u64)>,
    i: int,
    pair: (String, u64),
    cat: Seq<char>,
)
    requires
        0 <= i < s.len(),
        s[i].0@ == pair.0@,
        forall|j: int| 0 <= j < i ==> s[j].0@ != pair.0@,
    ensures
        pairs_lookup(s.update(i, pair), cat) == if cat == pair.0@ {
            Some(pair.1)
        } else {
            pairs_lookup(s, cat)
        },
    decreases s.len(),
{
    let t = s.update(i, pair);
    if i == 0 {
        assert(t[0] == pair);
        assert(t.drop_first() =~= s.drop_first());
    } else {
        assert(t[0] == s[0]);
        assert(t.drop_first() =~= s.drop_first().update(i - 1, pair));
        lemma_pairs_lookup_update(s.drop_first(), i - 1, pair, cat);
    }
}

/// Appending an entry changes only an absent key's lookup.
proof fn lemma_pairs_lookup_push(s: Seq<(String, u64)>, pair: (String, u64), cat: Seq<char>)
    ensures
        pairs_lookup(s.push(pair), cat) == match pairs_lookup(s, cat) {
            Some(v) => Some(v),
            None => if cat == pair.0@ {
                Some(pair.1)
            } else {
                None::<u64>
            },
        },
    decreases s.len(),
{
    let t = s.push(pair);
    if s.len() == 0 {
        assert(t[0] == pair);
        assert(t.drop_first() =~= Seq::<(String, u64)>::empty());
        assert(pairs_lookup(Seq::<(String, u64)>::empty(), cat) is None);
        assert(pairs_lookup(s, cat) is None);
    } else {
        assert(t[0] == s[0]);
        assert(t.drop_first() =~= s.drop_first().push(pair));
        lemma_pairs_lookup_push(s.drop_first(), pair, cat);
    }
}

/// The simulated total capacity the statistics report, in bytes.
pub const SIMULATED_TOTAL_BYTES: u64 = 1073741824;

/// Manages a scanned listing.
#[derive(Debug)]
pub struct FileManager {
    pub name: String,
    pub files: Vec<FileInfo>,
    pub storage_stats: StorageStats,
}

impl FileManager {
    /// A manager with nothing scanned.
    pub fn new() -> (r: FileManager)
        ensures
            r.name@ == "FileManager"@,
            r.files@.len() == 0,
            r.storage_stats.total_size == 0,
            r.storage_stats.used_size == 0,
            r.storage_stats.free_size == 0,
            r.storage_stats.file_count == 0,
            r.storage_stats.category_breakdown@.len() == 0,
    {
        FileManager {
            name: String::from_str("FileManager"),
            files: Vec::new(),
            storage_stats: StorageStats {
                total_size: 0,
                used_size: 0,
                free_size: 0,
                file_count: 0,
                category_breakdown: Vec::new(),
            },
        }
    }

    /// Record a scan's listing.
    pub fn record_listing(&mut self, files: Vec<FileInfo>)
        ensures
            final(self).files@ == files@,
            final(self).name == old(self).name,
    {
        self.files = files;
    }

    /// Classify one file name by its extension.
    pub fn classify_file(&self, name: &str) -> (r: String)
        ensures
            r@ == classify(name@),
    {
        let category: &str = if has_suffix_ci(name, ".pdf") || has_suffix_ci(name, ".doc")
            || has_suffix_ci(name, ".docx") || has_suffix_ci(name, ".txt") || has_suffix_ci(
            name,
            ".xls",
        ) || has_suffix_ci(name, ".xlsx") {
            "document"
        } else if has_suffix_ci(name, ".jpg") || has_suffix_ci(name, ".png") || has_suffix_ci(
            name,
            ".gif",
        ) || has_suffix_ci(name, ".bmp") {
            "image"
        } else if has_suffix_ci(name, ".mp4") || has_suffix_ci(name, ".avi") || has_suffix_ci(
            name,
            ".mkv",
        ) || has_suffix_ci(name, ".mov") {
            "video"
        } else if has_suffix_ci(name, ".mp3") || has_suffix_ci(name, ".wav") || has_suffix_ci(
            name,
            ".flac",
        ) || has_suffix_ci(name, ".aac") {
            "audio"
        } else if has_suffix_ci(name, ".zip") || has_suffix_ci(name, ".rar") || has_suffix_ci(
            name,
            ".7z",
        ) || has_suffix_ci(name, ".tar") {
            "archive"
        } else {
            "other"
        };
        String::from_str(category)
    }

    /// The statistics over the recorded listing: a simulated fixed
    /// capacity, the saturating size sum, what remains free, the file
    /// count, and per-category byte totals.
    pub fn get_storage_stats(&self) -> (r: Result<StorageStats, ManagerError>)
        requires
            self.files@.len() <= u64::MAX,
        ensures
            ({
                let stats = r->Ok_0;
                &&& r is Ok
                &&& stats.total_size == SIMULATED_TOTAL_BYTES
                &&& stats.used_size == used_total(self.files@)
                &&& stats.free_size == if used_total(self.files@) <= SIMULATED_TOTAL_BYTES {
                    SIMULATED_TOTAL_BYTES - used_total(self.files@)
                } else {
                    0int
                }
                &&& stats.file_count == self.files@.len()
                &&& forall|cat: Seq<char>|
                    #![trigger pairs_lookup(stats.category_breakdown@, cat)]
                    pairs_lookup(stats.category_breakdown@, cat) == match breakdown_of(
                        self.files@,
                        cat,
                    ) {
                        Some(v) => Some(v as u64),
                        None => None::<u64>,
                    }
            }),
    {
        let n = self.files.len();
        let mut used: u64 = 0;
        let mut breakdown: Vec<(String, u64)> = Vec::new();
        let mut i: usize = 0;
        proof {
            assert(self.files@.subrange(0, 0) =~= Seq::<FileInfo>::empty());
        }
        while i < n
            invariant
                n == self.files@.len(),
                i <= n,
                used == used_total(self.files@.subrange(0, i as int)),
                forall|cat: Seq<char>|
                    #![trigger pairs_lookup(breakdown@, cat)]
                    pairs_lookup(breakdown@, cat) == match breakdown_of(
                        self.files@.subrange(0, i as int),
                        cat,
                    ) {
                        Some(v) => Some(v as u64),
                        None => None::<u64>,
                    },
            decreases n - i,
        {
            let ghost pre = self.files@.subrange(0, i as int);
            proof {
                assert(self.files@.subrange(0, i + 1).drop_last() =~= pre);
                assert(self.files@.subrange(0, i + 1).last() == self.files@[i as int]);
            }
            let size = self.files[i].size;
            used = used.saturating_add(size);
            let cat = self.classify_file(self.files[i].name.as_str());
            // fold this file's size into its category's entry
            let m = breakdown.len();
            let mut j: usize = 0;
            let mut placed = false;
            while j < m
                invariant_except_break
                    m == breakdown@.len(),
                    j <= m,
                    !placed,
                    forall|jj: int| 0 <= jj < j ==> breakdown@[jj].0@ != cat@,
                ensures
                    m == breakdown@.len(),
                    j <= m,
                    forall|jj: int| 0 <= jj < j ==> breakdown@[jj].0@ != cat@,
                    placed ==> j < m && breakdown@[j as int].0@ == cat@,
                    !placed ==> j == m,
                decreases m - j,
            {
                if str_eq(breakdown[j].0.as_str(), cat.as_str()) {
                    placed = true;
                    break;
                }
                j = j + 1;
            }
            let ghost old_breakdown = breakdown@;
            if placed {
                let updated = breakdown[j].1.saturating_add(size);
                let key = breakdown[j].0.clone();
                let ghost pair = (key, updated);
                proof {
                    lemma_pairs_lookup_at(old_breakdown, cat@, j as int);
                    lemma_breakdown_bounded(pre, cat@);
                }
                breakdown.set(j, (key, updated));
                proof {
                    assert forall|c: Seq<char>|
                        #![trigger pairs_lookup(breakdown@, c)]
                        pairs_lookup(breakdown@, c) == match breakdown_of(
                            self.files@.subrange(0, i + 1),
                            c,
                        ) {
                            Some(v) => Some(v as u64),
                            None => None::<u64>,
                        } by {
                        lemma_pairs_lookup_update(old_breakdown, j as int, pair, c);
                        lemma_breakdown_bounded(pre, c);
                        lemma_breakdown_bounded(self.files@.subrange(0, i + 1), c);
                    }
                }
            } else {
                let ghost pair = (cat, size);
                proof {
                    lemma_pairs_lookup_at(old_breakdown, cat@, m as int);
                }
                breakdown.push((cat, size));
                proof {
                    assert forall|c: Seq<char>|
                        #![trigger pairs_lookup(breakdown@, c)]
                        pairs_lookup(breakdown@, c) == match breakdown_of(
                            self.files@.subrange(0, i + 1),
                            c,
                        ) {
                            Some(v) => Some(v as u64),
                            None => None::<u64>,
                        } by {
                        lemma_pairs_lookup_push(old_breakdown, pair, c);
                        lemma_breakdown_bounded(pre, c);
                        lemma_breakdown_bounded(self.files@.subrange(0, i + 1), c);
                    }
                }
            }
            i = i + 1;
        }
        proof {
            assert(self.files@.subrange(0, n as int) =~= self.files@);
        }
        let free = if used <= SIMULATED_TOTAL_BYTES {
            SIMULATED_TOTAL_BYTES - used
        } else {
            0
        };
        Ok(
            StorageStats {
                total_size: SIMULATED_TOTAL_BYTES,
                used_size: used,
                free_size: free,
                file_count: n as u64,
                category_breakdown: breakdown,
            },
        )
    }
}

} // verus!
