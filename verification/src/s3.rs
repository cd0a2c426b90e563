//! Locations of objects in S3.

use vstd::prelude::*;

verus! {

/// The part of the host name that names the region: nothing for the region
/// `us-east-1`, which is given as no region, else a hyphen and the region.
pub open spec fn region_part(region: Option<Seq<char>>) -> Seq<char> {
    match region {
        Some(region) => "-"@ + region,
        None => Seq::empty(),
    }
}

/// The path-like URL of an object in a bucket.
pub open spec fn object_url_text(region: Option<Seq<char>>, bucket_name: Seq<char>, key: Seq<char>)
    -> Seq<char> {
    "https://s3"@ + region_part(region) + ".amazonaws.com/"@ + bucket_name + "/"@ + key
}

/// The path-like URL of the object with the key given in the bucket given.
/// `region` is the name of the region of the bucket, or nothing for the
/// region `us-east-1`, whose host name has no region in it.
pub fn object_url(region: Option<&str>, bucket_name: &str, key: &str) -> (res: String)
    ensures
        res@ == object_url_text(
            match region {
                Some(region) => Some(region@),
                None => None,
            },
            bucket_name@,
            key@,
        ),
{
    let mut url = "https://s3".to_owned();
    if let Some(region) = region {
        url.append("-");
        url.append(region);
    }
    proof {
        assert(url@ =~= "https://s3"@ + region_part(
            match region {
                Some(region) => Some(region@),
                None => None,
            },
        ));
    }
    url.append(".amazonaws.com/");
    url.append(bucket_name);
    url.append("/");
    url.append(key);
    url
}

} // verus!
