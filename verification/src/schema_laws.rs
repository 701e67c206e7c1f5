//! The kind schemas agree with the backend-features table.
use crate::backend_features::{features_table, first_match_at, spec_lookup, BackendFeatures};
use crate::source_schema::kind_schemas;
use vstd::prelude::*;

verus! {

proof fn lemma_lookup_is(kind: Seq<char>, i: int)
    requires
        0 <= i < features_table().len(),
        features_table()[i].0 == kind,
        forall|j: int| 0 <= j < i ==> #[trigger] features_table()[j].0 != kind,
    ensures
        spec_lookup(kind) == Some(features_table()[i].1),
{
    let tbl = features_table();
    assert(first_match_at(tbl, kind, i));
    let c = choose|c: int| first_match_at(tbl, kind, c);
    if c < i {
        assert(tbl[c].0 != kind);
    }
    if c > i {
        assert(tbl[i].0 != kind);
    }
}

proof fn lemma_lookup_smb()
    ensures
        spec_lookup("smb"@) == Some(features_table()[49].1),
        features_table()[49].0 == "smb"@,
{
    reveal_strlit("smb");
    let tbl = features_table();
    reveal_strlit("azureblob");
    assert(tbl[0].0.len() != "smb"@.len());
    reveal_strlit("azurefiles");
    assert(tbl[1].0.len() != "smb"@.len());
    reveal_strlit("b2");
    assert(tbl[2].0.len() != "smb"@.len());
    reveal_strlit("box");
    assert(tbl[3].0[0] != "smb"@[0]);
    reveal_strlit("cloudinary");
    assert(tbl[4].0.len() != "smb"@.len());
    reveal_strlit("doi");
    assert(tbl[5].0[0] != "smb"@[0]);
    reveal_strlit("drime");
    assert(tbl[6].0.len() != "smb"@.len());
    reveal_strlit("drive");
    assert(tbl[7].0.len() != "smb"@.len());
    reveal_strlit("dropbox");
    assert(tbl[8].0.len() != "smb"@.len());
    reveal_strlit("fichier");
    assert(tbl[9].0.len() != "smb"@.len());
    reveal_strlit("filefabric");
    assert(tbl[10].0.len() != "smb"@.len());
    reveal_strlit("filelu");
    assert(tbl[11].0.len() != "smb"@.len());
    reveal_strlit("filen");
    assert(tbl[12].0.len() != "smb"@.len());
    reveal_strlit("filescom");
    assert(tbl[13].0.len() != "smb"@.len());
    reveal_strlit("ftp");
    assert(tbl[14].0[0] != "smb"@[0]);
    reveal_strlit("gofile");
    assert(tbl[15].0.len() != "smb"@.len());
    reveal_strlit("google cloud storage");
    assert(tbl[16].0.len() != "smb"@.len());
    reveal_strlit("google photos");
    assert(tbl[17].0.len() != "smb"@.len());
    reveal_strlit("hdfs");
    assert(tbl[18].0.len() != "smb"@.len());
    reveal_strlit("hidrive");
    assert(tbl[19].0.len() != "smb"@.len());
    reveal_strlit("http");
    assert(tbl[20].0.len() != "smb"@.len());
    reveal_strlit("huaweidrive");
    assert(tbl[21].0.len() != "smb"@.len());
    reveal_strlit("iclouddrive");
    assert(tbl[22].0.len() != "smb"@.len());
    reveal_strlit("imagekit");
    assert(tbl[23].0.len() != "smb"@.len());
    reveal_strlit("internetarchive");
    assert(tbl[24].0.len() != "smb"@.len());
    reveal_strlit("internxt");
    assert(tbl[25].0.len() != "smb"@.len());
    reveal_strlit("jottacloud");
    assert(tbl[26].0.len() != "smb"@.len());
    reveal_strlit("koofr");
    assert(tbl[27].0.len() != "smb"@.len());
    reveal_strlit("linkbox");
    assert(tbl[28].0.len() != "smb"@.len());
    reveal_strlit("mailru");
    assert(tbl[29].0.len() != "smb"@.len());
    reveal_strlit("mega");
    assert(tbl[30].0.len() != "smb"@.len());
    reveal_strlit("netstorage");
    assert(tbl[31].0.len() != "smb"@.len());
    reveal_strlit("onedrive");
    assert(tbl[32].0.len() != "smb"@.len());
    reveal_strlit("opendrive");
    assert(tbl[33].0.len() != "smb"@.len());
    reveal_strlit("oracleobjectstorage");
    assert(tbl[34].0.len() != "smb"@.len());
    reveal_strlit("pcloud");
    assert(tbl[35].0.len() != "smb"@.len());
    reveal_strlit("pikpak");
    assert(tbl[36].0.len() != "smb"@.len());
    reveal_strlit("pixeldrain");
    assert(tbl[37].0.len() != "smb"@.len());
    reveal_strlit("premiumizeme");
    assert(tbl[38].0.len() != "smb"@.len());
    reveal_strlit("protondrive");
    assert(tbl[39].0.len() != "smb"@.len());
    reveal_strlit("putio");
    assert(tbl[40].0.len() != "smb"@.len());
    reveal_strlit("qingstor");
    assert(tbl[41].0.len() != "smb"@.len());
    reveal_strlit("quatrix");
    assert(tbl[42].0.len() != "smb"@.len());
    reveal_strlit("s3");
    assert(tbl[43].0.len() != "smb"@.len());
    reveal_strlit("seafile");
    assert(tbl[44].0.len() != "smb"@.len());
    reveal_strlit("sftp");
    assert(tbl[45].0.len() != "smb"@.len());
    reveal_strlit("shade");
    assert(tbl[46].0.len() != "smb"@.len());
    reveal_strlit("sharefile");
    assert(tbl[47].0.len() != "smb"@.len());
    reveal_strlit("sia");
    assert(tbl[48].0[1] != "smb"@[1]);
    assert forall|j: int| 0 <= j < 49 implies #[trigger] tbl[j].0 != "smb"@ by {}
    lemma_lookup_is("smb"@, 49);
}
proof fn lemma_lookup_sftp()
    ensures
        spec_lookup("sftp"@) == Some(features_table()[45].1),
        features_table()[45].0 == "sftp"@,
{
    reveal_strlit("sftp");
    let tbl = features_table();
    reveal_strlit("azureblob");
    assert(tbl[0].0.len() != "sftp"@.len());
    reveal_strlit("azurefiles");
    assert(tbl[1].0.len() != "sftp"@.len());
    reveal_strlit("b2");
    assert(tbl[2].0.len() != "sftp"@.len());
    reveal_strlit("box");
    assert(tbl[3].0.len() != "sftp"@.len());
    reveal_strlit("cloudinary");
    assert(tbl[4].0.len() != "sftp"@.len());
    reveal_strlit("doi");
    assert(tbl[5].0.len() != "sftp"@.len());
    reveal_strlit("drime");
    assert(tbl[6].0.len() != "sftp"@.len());
    reveal_strlit("drive");
    assert(tbl[7].0.len() != "sftp"@.len());
    reveal_strlit("dropbox");
    assert(tbl[8].0.len() != "sftp"@.len());
    reveal_strlit("fichier");
    assert(tbl[9].0.len() != "sftp"@.len());
    reveal_strlit("filefabric");
    assert(tbl[10].0.len() != "sftp"@.len());
    reveal_strlit("filelu");
    assert(tbl[11].0.len() != "sftp"@.len());
    reveal_strlit("filen");
    assert(tbl[12].0.len() != "sftp"@.len());
    reveal_strlit("filescom");
    assert(tbl[13].0.len() != "sftp"@.len());
    reveal_strlit("ftp");
    assert(tbl[14].0.len() != "sftp"@.len());
    reveal_strlit("gofile");
    assert(tbl[15].0.len() != "sftp"@.len());
    reveal_strlit("google cloud storage");
    assert(tbl[16].0.len() != "sftp"@.len());
    reveal_strlit("google photos");
    assert(tbl[17].0.len() != "sftp"@.len());
    reveal_strlit("hdfs");
    assert(tbl[18].0[0] != "sftp"@[0]);
    reveal_strlit("hidrive");
    assert(tbl[19].0.len() != "sftp"@.len());
    reveal_strlit("http");
    assert(tbl[20].0[0] != "sftp"@[0]);
    reveal_strlit("huaweidrive");
    assert(tbl[21].0.len() != "sftp"@.len());
    reveal_strlit("iclouddrive");
    assert(tbl[22].0.len() != "sftp"@.len());
    reveal_strlit("imagekit");
    assert(tbl[23].0.len() != "sftp"@.len());
    reveal_strlit("internetarchive");
    assert(tbl[24].0.len() != "sftp"@.len());
    reveal_strlit("internxt");
    assert(tbl[25].0.len() != "sftp"@.len());
    reveal_strlit("jottacloud");
    assert(tbl[26].0.len() != "sftp"@.len());
    reveal_strlit("koofr");
    assert(tbl[27].0.len() != "sftp"@.len());
    reveal_strlit("linkbox");
    assert(tbl[28].0.len() != "sftp"@.len());
    reveal_strlit("mailru");
    assert(tbl[29].0.len() != "sftp"@.len());
    reveal_strlit("mega");
    assert(tbl[30].0[0] != "sftp"@[0]);
    reveal_strlit("netstorage");
    assert(tbl[31].0.len() != "sftp"@.len());
    reveal_strlit("onedrive");
    assert(tbl[32].0.len() != "sftp"@.len());
    reveal_strlit("opendrive");
    assert(tbl[33].0.len() != "sftp"@.len());
    reveal_strlit("oracleobjectstorage");
    assert(tbl[34].0.len() != "sftp"@.len());
    reveal_strlit("pcloud");
    assert(tbl[35].0.len() != "sftp"@.len());
    reveal_strlit("pikpak");
    assert(tbl[36].0.len() != "sftp"@.len());
    reveal_strlit("pixeldrain");
    assert(tbl[37].0.len() != "sftp"@.len());
    reveal_strlit("premiumizeme");
    assert(tbl[38].0.len() != "sftp"@.len());
    reveal_strlit("protondrive");
    assert(tbl[39].0.len() != "sftp"@.len());
    reveal_strlit("putio");
    assert(tbl[40].0.len() != "sftp"@.len());
    reveal_strlit("qingstor");
    assert(tbl[41].0.len() != "sftp"@.len());
    reveal_strlit("quatrix");
    assert(tbl[42].0.len() != "sftp"@.len());
    reveal_strlit("s3");
    assert(tbl[43].0.len() != "sftp"@.len());
    reveal_strlit("seafile");
    assert(tbl[44].0.len() != "sftp"@.len());
    assert forall|j: int| 0 <= j < 45 implies #[trigger] tbl[j].0 != "sftp"@ by {}
    lemma_lookup_is("sftp"@, 45);
}
proof fn lemma_lookup_ftp()
    ensures
        spec_lookup("ftp"@) == Some(features_table()[14].1),
        features_table()[14].0 == "ftp"@,
{
    reveal_strlit("ftp");
    let tbl = features_table();
    reveal_strlit("azureblob");
    assert(tbl[0].0.len() != "ftp"@.len());
    reveal_strlit("azurefiles");
    assert(tbl[1].0.len() != "ftp"@.len());
    reveal_strlit("b2");
    assert(tbl[2].0.len() != "ftp"@.len());
    reveal_strlit("box");
    assert(tbl[3].0[0] != "ftp"@[0]);
    reveal_strlit("cloudinary");
    assert(tbl[4].0.len() != "ftp"@.len());
    reveal_strlit("doi");
    assert(tbl[5].0[0] != "ftp"@[0]);
    reveal_strlit("drime");
    assert(tbl[6].0.len() != "ftp"@.len());
    reveal_strlit("drive");
    assert(tbl[7].0.len() != "ftp"@.len());
    reveal_strlit("dropbox");
    assert(tbl[8].0.len() != "ftp"@.len());
    reveal_strlit("fichier");
    assert(tbl[9].0.len() != "ftp"@.len());
    reveal_strlit("filefabric");
    assert(tbl[10].0.len() != "ftp"@.len());
    reveal_strlit("filelu");
    assert(tbl[11].0.len() != "ftp"@.len());
    reveal_strlit("filen");
    assert(tbl[12].0.len() != "ftp"@.len());
    reveal_strlit("filescom");
    assert(tbl[13].0.len() != "ftp"@.len());
    assert forall|j: int| 0 <= j < 14 implies #[trigger] tbl[j].0 != "ftp"@ by {}
    lemma_lookup_is("ftp"@, 14);
}
proof fn lemma_lookup_drive()
    ensures
        spec_lookup("drive"@) == Some(features_table()[7].1),
        features_table()[7].0 == "drive"@,
{
    reveal_strlit("drive");
    let tbl = features_table();
    reveal_strlit("azureblob");
    assert(tbl[0].0.len() != "drive"@.len());
    reveal_strlit("azurefiles");
    assert(tbl[1].0.len() != "drive"@.len());
    reveal_strlit("b2");
    assert(tbl[2].0.len() != "drive"@.len());
    reveal_strlit("box");
    assert(tbl[3].0.len() != "drive"@.len());
    reveal_strlit("cloudinary");
    assert(tbl[4].0.len() != "drive"@.len());
    reveal_strlit("doi");
    assert(tbl[5].0.len() != "drive"@.len());
    reveal_strlit("drime");
    assert(tbl[6].0[3] != "drive"@[3]);
    assert forall|j: int| 0 <= j < 7 implies #[trigger] tbl[j].0 != "drive"@ by {}
    lemma_lookup_is("drive"@, 7);
}
proof fn lemma_lookup_iclouddrive()
    ensures
        spec_lookup("iclouddrive"@) == Some(features_table()[22].1),
        features_table()[22].0 == "iclouddrive"@,
{
    reveal_strlit("iclouddrive");
    let tbl = features_table();
    reveal_strlit("azureblob");
    assert(tbl[0].0.len() != "iclouddrive"@.len());
    reveal_strlit("azurefiles");
    assert(tbl[1].0.len() != "iclouddrive"@.len());
    reveal_strlit("b2");
    assert(tbl[2].0.len() != "iclouddrive"@.len());
    reveal_strlit("box");
    assert(tbl[3].0.len() != "iclouddrive"@.len());
    reveal_strlit("cloudinary");
    assert(tbl[4].0.len() != "iclouddrive"@.len());
    reveal_strlit("doi");
    assert(tbl[5].0.len() != "iclouddrive"@.len());
    reveal_strlit("drime");
    assert(tbl[6].0.len() != "iclouddrive"@.len());
    reveal_strlit("drive");
    assert(tbl[7].0.len() != "iclouddrive"@.len());
    reveal_strlit("dropbox");
    assert(tbl[8].0.len() != "iclouddrive"@.len());
    reveal_strlit("fichier");
    assert(tbl[9].0.len() != "iclouddrive"@.len());
    reveal_strlit("filefabric");
    assert(tbl[10].0.len() != "iclouddrive"@.len());
    reveal_strlit("filelu");
    assert(tbl[11].0.len() != "iclouddrive"@.len());
    reveal_strlit("filen");
    assert(tbl[12].0.len() != "iclouddrive"@.len());
    reveal_strlit("filescom");
    assert(tbl[13].0.len() != "iclouddrive"@.len());
    reveal_strlit("ftp");
    assert(tbl[14].0.len() != "iclouddrive"@.len());
    reveal_strlit("gofile");
    assert(tbl[15].0.len() != "iclouddrive"@.len());
    reveal_strlit("google cloud storage");
    assert(tbl[16].0.len() != "iclouddrive"@.len());
    reveal_strlit("google photos");
    assert(tbl[17].0.len() != "iclouddrive"@.len());
    reveal_strlit("hdfs");
    assert(tbl[18].0.len() != "iclouddrive"@.len());
    reveal_strlit("hidrive");
    assert(tbl[19].0.len() != "iclouddrive"@.len());
    reveal_strlit("http");
    assert(tbl[20].0.len() != "iclouddrive"@.len());
    reveal_strlit("huaweidrive");
    assert(tbl[21].0[0] != "iclouddrive"@[0]);
    assert forall|j: int| 0 <= j < 22 implies #[trigger] tbl[j].0 != "iclouddrive"@ by {}
    lemma_lookup_is("iclouddrive"@, 22);
}

/// Every kind schema's feature flags are the backend-features table's for
/// its tag. WebDAV is the exception: its streaming depends on its vendor,
/// so its schema claims neither feature and the per-source value is looked
/// up instead.
pub proof fn law_schema_features_match(i: int)
    requires
        0 <= i < kind_schemas().len(),
    ensures
        kind_schemas()[i].tag == "webdav"@ ==> !kind_schemas()[i].put_stream && !kind_schemas()[i].duplicate_files,
        kind_schemas()[i].tag != "webdav"@ ==> spec_lookup(kind_schemas()[i].tag) == Some(
            BackendFeatures { put_stream: kind_schemas()[i].put_stream, duplicate_files: kind_schemas()[i].duplicate_files },
        ),
{
    reveal_strlit("webdav");
    reveal_strlit("smb");
    reveal_strlit("sftp");
    reveal_strlit("ftp");
    reveal_strlit("drive");
    reveal_strlit("iclouddrive");
    let ks = kind_schemas();
    if i == 0 {
        lemma_lookup_smb();
        assert(ks[0].tag.len() != "webdav"@.len());
    } else if i == 1 {
    } else if i == 2 {
        lemma_lookup_sftp();
        assert(ks[2].tag.len() != "webdav"@.len());
    } else if i == 3 {
        lemma_lookup_ftp();
        assert(ks[3].tag.len() != "webdav"@.len());
    } else if i == 4 {
        lemma_lookup_drive();
        assert(ks[4].tag[0] != "webdav"@[0]);
    } else {
        lemma_lookup_iclouddrive();
        assert(ks[5].tag.len() != "webdav"@.len());
    }
}

} // verus!
