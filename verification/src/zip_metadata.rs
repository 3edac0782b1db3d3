//! Locating an archive's metadata: the End-Of-Central-Directory record is
//! read from the fixed window at the end of the image (an archive with a
//! comment is refused, since the window cannot hold one), then exactly the
//! declared number of Central Directory File Headers are decoded one after
//! another from the directory's start offset.

use vstd::prelude::*;

use crate::bytes::{u16_le, u32_le};
use crate::central_dir_file_header::{
    cdfh_basic_ok, cdfh_concat, cdfh_decoded, cdfh_fits, cdfh_item_binary, cdfh_item_len,
    cdfh_total_len, lemma_cdfh_concat_split, lemma_cdfh_item_binary_decodes,
    lemma_cdfh_item_binary_len, CentralDirectoryFileHeader,
};
use crate::eof_central_dir::{
    eocd_basic_ok, eocd_binary_for, eocd_decoded, eocd_fits, lemma_eocd_binary_parses,
    EndOfCentralDirectory,
};
use crate::errors::HeaderParseError;
use crate::zip_item::ZipItemView;

verus! {

/// The fixed-size window at the end of the image that is read as the
/// End-Of-Central-Directory record.
pub open spec fn eocd_window(archive: Seq<u8>) -> Seq<u8>
    recommends
        archive.len() >= 22,
{
    archive.subrange(archive.len() - 22, archive.len() as int)
}

/// Where the directory record `i` entries past the start offset begins:
/// each record is followed directly by the next.
pub open spec fn cdfh_chain_offset(archive: Seq<u8>, start: int, i: nat) -> int
    decreases i,
{
    if i == 0 {
        start
    } else {
        let prev = cdfh_chain_offset(archive, start, (i - 1) as nat);
        prev + cdfh_total_len(archive, prev)
    }
}

/// The whole metadata of the image parses: the trailer window is a
/// well-formed record and every declared directory record decodes.
pub open spec fn metadata_parses(archive: Seq<u8>) -> bool {
    &&& archive.len() >= 22
    &&& eocd_basic_ok(eocd_window(archive))
    &&& eocd_fits(eocd_window(archive))
    &&& forall|i: nat|
        #![trigger cdfh_chain_offset(archive, u32_le(eocd_window(archive), 16) as int, i)]
        i < u16_le(eocd_window(archive), 10) ==> cdfh_basic_ok(
            archive,
            cdfh_chain_offset(archive, u32_le(eocd_window(archive), 16) as int, i),
        ) && cdfh_fits(
            archive,
            cdfh_chain_offset(archive, u32_le(eocd_window(archive), 16) as int, i),
        )
}

/// The image of a freshly written archive: the entry bodies with their
/// headers, the directory records, and the trailer that counts the entries
/// and locates the directory.
pub open spec fn created_archive_image(body: Seq<u8>, items: Seq<ZipItemView>) -> Seq<u8> {
    body + cdfh_concat(items) + eocd_binary_for(
        items.len() as u16,
        cdfh_concat(items).len() as u32,
        body.len() as u32,
    )
}

/// Entry paths fit the length field of a directory record.
pub open spec fn created_items_fit(items: Seq<ZipItemView>) -> bool {
    forall|j: int| 0 <= j < items.len() ==> (#[trigger] items[j]).item_path.len() <= u16::MAX
}

/// The directory record of entry `i` of a fresh image lies exactly at the
/// end of the records before it, and decodes there.
proof fn lemma_created_record_at(body: Seq<u8>, items: Seq<ZipItemView>, i: int)
    requires
        0 <= i < items.len(),
        items.len() <= u16::MAX,
        created_items_fit(items),
        body.len() + cdfh_concat(items).len() <= u32::MAX,
    ensures
        ({
            let archive = created_archive_image(body, items);
            let off = body.len() + cdfh_concat(items.take(i)).len() as int;
            &&& cdfh_basic_ok(archive, off)
            &&& cdfh_fits(archive, off)
            &&& cdfh_total_len(archive, off) == cdfh_item_len(items[i])
            &&& cdfh_concat(items.take(i + 1)).len() == cdfh_concat(items.take(i)).len()
                + cdfh_item_len(items[i])
        }),
{
    let archive = created_archive_image(body, items);
    let off = body.len() + cdfh_concat(items.take(i)).len() as int;
    let record = cdfh_item_binary(items[i]);
    lemma_cdfh_item_binary_len(items[i]);
    lemma_cdfh_concat_split(items, i);
    assert(items.skip(i).first() == items[i]);
    assert(items.skip(i).drop_first() =~= items.skip(i + 1));
    assert(cdfh_concat(items.skip(i)) == record + cdfh_concat(items.skip(i + 1)));
    lemma_cdfh_concat_split(items, i + 1);
    assert(items.take(i + 1) =~= items.take(i).push(items[i]));
    crate::central_dir_file_header::lemma_cdfh_concat_snoc(items.take(i), items[i]);
    assert(archive.subrange(off, off + cdfh_item_len(items[i])) =~= record);
    lemma_cdfh_item_binary_decodes(archive, off, items[i]);
}

/// In a fresh image, the offset of the directory record `i` entries past
/// the start is the end of the records before it.
proof fn lemma_created_chain(body: Seq<u8>, items: Seq<ZipItemView>, i: int)
    requires
        0 <= i <= items.len(),
        items.len() <= u16::MAX,
        created_items_fit(items),
        body.len() + cdfh_concat(items).len() <= u32::MAX,
    ensures
        cdfh_chain_offset(created_archive_image(body, items), body.len() as int, i as nat)
            == body.len() + cdfh_concat(items.take(i)).len() as int,
    decreases i,
{
    if i == 0 {
        assert(items.take(0) =~= Seq::<ZipItemView>::empty());
        assert(cdfh_concat(items.take(0)) =~= Seq::<u8>::empty());
    } else {
        lemma_created_chain(body, items, i - 1);
        lemma_created_record_at(body, items, i - 1);
    }
}

/// A freshly written image parses back: its trailer is well formed, it
/// declares exactly the entries that were written, their directory records
/// all decode at their chained offsets, and the directory starts where the
/// bodies end.
pub proof fn lemma_created_archive_parses(body: Seq<u8>, items: Seq<ZipItemView>)
    requires
        items.len() <= u16::MAX,
        created_items_fit(items),
        body.len() + cdfh_concat(items).len() <= u32::MAX,
    ensures
        metadata_parses(created_archive_image(body, items)),
        u16_le(eocd_window(created_archive_image(body, items)), 10) == items.len(),
        u32_le(eocd_window(created_archive_image(body, items)), 16) == body.len(),
{
    let archive = created_archive_image(body, items);
    let n16 = items.len() as u16;
    let cd_len = cdfh_concat(items).len() as u32;
    let cd_start = body.len() as u32;
    lemma_eocd_binary_parses(n16, cd_len, cd_start);
    assert(eocd_window(archive) =~= eocd_binary_for(n16, cd_len, cd_start));
    let start = u32_le(eocd_window(archive), 16) as int;
    assert(start == body.len());
    assert forall|i: nat| i < u16_le(eocd_window(archive), 10) implies cdfh_basic_ok(
        archive,
        cdfh_chain_offset(archive, start, i),
    ) && cdfh_fits(archive, cdfh_chain_offset(archive, start, i)) by {
        lemma_created_chain(body, items, i as int);
        lemma_created_record_at(body, items, i as int);
    }
}

pub struct ZipMetadata;

impl ZipMetadata {
    /// Parses the trailer and then the whole directory, eagerly; the first
    /// record that does not decode fails the whole archive.
    pub fn parse(archive: &Vec<u8>) -> (r: Result<
        (EndOfCentralDirectory, Vec<CentralDirectoryFileHeader>),
        HeaderParseError,
    >)
        ensures
            r is Ok <==> metadata_parses(archive@),
            match r {
                Ok((eocd, headers)) => {
                    &&& eocd_decoded(eocd, eocd_window(archive@))
                    &&& headers@.len() == eocd.total_num_of_central_dir
                    &&& forall|i: int|
                        0 <= i < headers@.len() ==> #[trigger] cdfh_decoded(
                            headers@[i],
                            archive@,
                            cdfh_chain_offset(archive@, eocd.cdfh_start_offset as int, i as nat),
                        )
                },
                Err(_) => true,
            },
    {
        let archive_len = archive.len();
        if archive_len < 22 {
            return Err(HeaderParseError::MalformedHeader);
        }
        let tail = vstd::slice::slice_to_vec(&archive[archive_len - 22..archive_len]);
        let eocd = match EndOfCentralDirectory::from(&tail) {
            Ok(eocd) => eocd,
            Err(e) => {
                return Err(e);
            },
        };
        let count = eocd.total_num_of_central_dir();
        let ghost start = eocd.cdfh_start_offset as int;
        let mut headers: Vec<CentralDirectoryFileHeader> = Vec::new();
        let mut offset: usize = eocd.cdfh_start_offset() as usize;
        let mut i: u16 = 0;
        while i < count
            invariant
                0 <= i <= count,
                headers@.len() == i,
                archive@.len() >= 22,
                eocd_basic_ok(eocd_window(archive@)),
                eocd_fits(eocd_window(archive@)),
                eocd_decoded(eocd, eocd_window(archive@)),
                count == eocd.total_num_of_central_dir,
                start == eocd.cdfh_start_offset as int,
                count == u16_le(eocd_window(archive@), 10),
                start == u32_le(eocd_window(archive@), 16) as int,
                offset == cdfh_chain_offset(archive@, start, i as nat),
                archive@.len() <= usize::MAX,
                forall|j: nat|
                    #![trigger cdfh_chain_offset(archive@, start, j)]
                    j < i ==> cdfh_basic_ok(archive@, cdfh_chain_offset(archive@, start, j))
                        && cdfh_fits(archive@, cdfh_chain_offset(archive@, start, j)),
                forall|j: int|
                    0 <= j < i ==> #[trigger] cdfh_decoded(
                        headers@[j],
                        archive@,
                        cdfh_chain_offset(archive@, start, j as nat),
                    ),
            decreases count - i,
        {
            let header = match CentralDirectoryFileHeader::from_bytes(archive, offset) {
                Ok(h) => h,
                Err(e) => {
                    proof {
                        assert(!metadata_parses(archive@)) by {
                            assert(cdfh_chain_offset(archive@, start, i as nat) == offset);
                        }
                    }
                    return Err(e);
                },
            };
            let record_len = 46 + (header.file_name_length as usize) + (header.extra_field_length
                as usize) + (header.file_comment_length as usize);
            proof {
                assert(offset + record_len <= archive@.len());
                assert(cdfh_chain_offset(archive@, start, (i + 1) as nat) == offset + record_len);
            }
            offset = offset + record_len;
            headers.push(header);
            i = i + 1;
        }
        Ok((eocd, headers))
    }
}

} // verus!
