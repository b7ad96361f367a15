//! Coordinate Reference System information.

use vstd::prelude::*;
use crate::decimal::{decimal, decimal_exec, parse_u32, parse_u32_exec, lemma_decimal, lemma_parse_decimal, is_digit};
use crate::text::{after_last, after_last_exec, chars_of, concat, last_index_of, opt_text, string_of, lemma_last_index_of_bound};

verus! {

/// Coordinate Reference System information.
#[derive(Debug, Clone, PartialEq, Eq)]
pub struct CRS {
    /// EPSG code (e.g. 7415 for EPSG:7415).
    pub epsg: Option<u32>,
    /// WKT2 representation.
    pub wkt2: Option<String>,
    /// PROJ.4 string.
    pub proj4: Option<String>,
    /// CityJSON authority name.
    pub authority: Option<String>,
    /// CityJSON identifier (usually the EPSG code as a string).
    pub identifier: Option<String>,
}

/// The CRS that an EPSG code denotes: authority `EPSG`, identifier the code's
/// decimal text.
pub open spec fn is_epsg_crs(c: CRS, code: u32) -> bool {
    &&& c.epsg == Some(code)
    &&& c.wkt2 is None
    &&& c.proj4 is None
    &&& opt_text(c.authority) == Some("EPSG"@)
    &&& opt_text(c.identifier) == Some(decimal(code as nat))
}

/// The prefix of CityJSON CRS URLs, which the EPSG code follows.
pub open spec fn epsg_url_prefix() -> Seq<char> {
    "https://www.opengis.net/def/crs/EPSG/0/"@
}

/// The EPSG code that a CityJSON CRS URL ends with: the text after its last
/// `/`, read as a `u32`.
pub open spec fn url_epsg_code(url: Seq<char>) -> Option<u32> {
    parse_u32(after_last(url, '/'))
}

impl CRS {
    /// The CRS of an EPSG code.
    pub fn from_epsg(code: u32) -> (r: Self)
        ensures
            is_epsg_crs(r, code),
    {
        let digits = decimal_exec(code as u64);
        CRS {
            epsg: Some(code),
            wkt2: None,
            proj4: None,
            authority: Some("EPSG".to_string()),
            identifier: Some(string_of(digits.as_slice())),
        }
    }

    /// The CRS of a CityJSON CRS URL such as
    /// `https://www.opengis.net/def/crs/EPSG/0/7415`: the EPSG code is what
    /// follows the last `/`; none when that is not a `u32`.
    pub fn from_cityjson_url(url: &str) -> (r: Option<Self>)
        ensures
            match url_epsg_code(url@) {
                Some(code) => r matches Some(c) && is_epsg_crs(c, code),
                None => r is None,
            },
    {
        let v = chars_of(url);
        let last = after_last_exec(v.as_slice(), '/');
        match parse_u32_exec(last.as_slice()) {
            Some(code) => Some(CRS::from_epsg(code)),
            None => None,
        }
    }

    /// The EPSG code, for the STAC `proj:epsg` property.
    pub fn to_stac_epsg(&self) -> (r: Option<u32>)
        ensures
            r == self.epsg,
    {
        self.epsg
    }

    /// The CRS as a CityJSON URL, when it has an EPSG code.
    pub fn to_cityjson_url(&self) -> (r: Option<String>)
        ensures
            match self.epsg {
                Some(code) => opt_text(r) == Some(epsg_url_prefix() + decimal(code as nat)),
                None => r is None,
            },
    {
        match self.epsg {
            Some(code) => {
                let prefix = chars_of("https://www.opengis.net/def/crs/EPSG/0/");
                let digits = decimal_exec(code as u64);
                let all = concat(prefix.as_slice(), digits.as_slice());
                Some(string_of(all.as_slice()))
            },
            None => None,
        }
    }

    /// The CRS as a STAC `proj:code` (`EPSG:<code>`), when it has an EPSG
    /// code.
    pub fn to_stac_proj_code(&self) -> (r: Option<String>)
        ensures
            match self.epsg {
                Some(code) => opt_text(r) == Some("EPSG:"@ + decimal(code as nat)),
                None => r is None,
            },
    {
        match self.epsg {
            Some(code) => {
                let prefix = chars_of("EPSG:");
                let digits = decimal_exec(code as u64);
                let all = concat(prefix.as_slice(), digits.as_slice());
                Some(string_of(all.as_slice()))
            },
            None => None,
        }
    }
}

impl CRS {
    /// A copy of the CRS.
    pub fn copy(&self) -> (r: CRS)
        ensures
            r == *self,
    {
        CRS {
            epsg: self.epsg,
            wkt2: match &self.wkt2 { Some(s) => Some(s.clone()), None => None },
            proj4: match &self.proj4 { Some(s) => Some(s.clone()), None => None },
            authority: match &self.authority { Some(s) => Some(s.clone()), None => None },
            identifier: match &self.identifier { Some(s) => Some(s.clone()), None => None },
        }
    }
}

impl Default for CRS {
    /// WGS84 (EPSG:4326).
    fn default() -> (r: Self)
        ensures
            is_epsg_crs(r, 4326),
    {
        CRS::from_epsg(4326)
    }
}

/// The last `/` of `a + b` is the last one of `a` when `b` has none.
pub proof fn lemma_last_index_of_concat(a: Seq<char>, b: Seq<char>, c: char)
    requires
        forall|i: int| 0 <= i < b.len() ==> b[i] != c,
    ensures
        last_index_of(a + b, c) == last_index_of(a, c),
    decreases b.len(),
{
    if b.len() == 0 {
        assert(a + b =~= a);
    } else {
        assert((a + b).drop_last() =~= a + b.drop_last());
        assert((a + b).last() == b.last());
        lemma_last_index_of_concat(a, b.drop_last(), c);
    }
}

/// A CityJSON URL written for a CRS reads back as that CRS: for every EPSG
/// code, `from_cityjson_url(to_cityjson_url(from_epsg(code)))` is
/// `from_epsg(code)`.
pub proof fn lemma_cityjson_url_roundtrip(code: u32)
    ensures
        url_epsg_code(epsg_url_prefix() + decimal(code as nat)) == Some(code),
{
    let d = decimal(code as nat);
    let p = epsg_url_prefix();
    lemma_decimal(code as nat);
    assert forall|i: int| 0 <= i < d.len() implies d[i] != '/' by {
        assert(is_digit(d[i]));
    }
    lemma_last_index_of_concat(p, d, '/');
    reveal_strlit("https://www.opengis.net/def/crs/EPSG/0/");
    assert(p.len() == 39);
    assert(p.last() == '/');
    assert(last_index_of(p, '/') == Some(38int));
    assert((p + d).subrange(39, (p + d).len() as int) =~= d);
    lemma_parse_decimal(code);
}

} // verus!
