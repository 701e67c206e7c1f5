//! The backend-features table agrees with rclone's own features, listed
//! here a second way: by the backends whose Go source defines no
//! `PutStream`, and by those whose `NewFs` sets `DuplicateFiles: true`.
use crate::backend_features::{features_table, first_match_at, spec_lookup};
use vstd::prelude::*;

verus! {

/// The rclone backends (of those the table covers) that cannot stream an
/// upload: their `backend/X/X.go` defines no `func (f *Fs) PutStream`.
pub open spec fn no_put_stream_backends() -> Seq<Seq<char>> {
    seq![
        "cloudinary"@,
        "fichier"@,
        "filefabric"@,
        "filelu"@,
        "google photos"@,
        "huaweidrive"@,
        "iclouddrive"@,
        "imagekit"@,
        "internetarchive"@,
        "internxt"@,
        "jottacloud"@,
        "linkbox"@,
        "mailru"@,
        "mega"@,
        "onedrive"@,
        "opendrive"@,
        "pcloud"@,
        "pikpak"@,
        "premiumizeme"@,
        "protondrive"@,
        "putio"@,
        "qingstor"@,
        "quatrix"@,
        "shade"@,
        "sharefile"@,
        "ulozto"@,
        "zoho"@,
    ]
}

/// The rclone backends whose `fs.Features` set `DuplicateFiles: true`.
pub open spec fn duplicate_files_backends() -> Seq<Seq<char>> {
    seq![
        "drive"@,
        "fichier"@,
        "gofile"@,
        "mega"@,
        "putio"@,
        "ulozto"@,
    ]
}

proof fn lemma_entry_0()
    ensures
        features_table()[0].1.put_stream == !no_put_stream_backends().contains(features_table()[0].0),
        features_table()[0].1.duplicate_files == duplicate_files_backends().contains(features_table()[0].0),
{
    reveal_strlit("azureblob");
    reveal_strlit("cloudinary");
    reveal_strlit("drive");
    reveal_strlit("fichier");
    reveal_strlit("filefabric");
    reveal_strlit("filelu");
    reveal_strlit("gofile");
    reveal_strlit("google photos");
    reveal_strlit("huaweidrive");
    reveal_strlit("iclouddrive");
    reveal_strlit("imagekit");
    reveal_strlit("internetarchive");
    reveal_strlit("internxt");
    reveal_strlit("jottacloud");
    reveal_strlit("linkbox");
    reveal_strlit("mailru");
    reveal_strlit("mega");
    reveal_strlit("onedrive");
    reveal_strlit("opendrive");
    reveal_strlit("pcloud");
    reveal_strlit("pikpak");
    reveal_strlit("premiumizeme");
    reveal_strlit("protondrive");
    reveal_strlit("putio");
    reveal_strlit("qingstor");
    reveal_strlit("quatrix");
    reveal_strlit("shade");
    reveal_strlit("sharefile");
    reveal_strlit("ulozto");
    reveal_strlit("zoho");
    let k = features_table()[0].0;
    assert(k == "azureblob"@);
    {
    let L = no_put_stream_backends();
    assert forall|q: int| 0 <= q < L.len() implies L[q] != k by {
        if q == 0 {
            assert(L[0].len() != k.len());
        } else if q == 1 {
            assert(L[1].len() != k.len());
        } else if q == 2 {
            assert(L[2].len() != k.len());
        } else if q == 3 {
            assert(L[3].len() != k.len());
        } else if q == 4 {
            assert(L[4].len() != k.len());
        } else if q == 5 {
            assert(L[5].len() != k.len());
        } else if q == 6 {
            assert(L[6].len() != k.len());
        } else if q == 7 {
            assert(L[7].len() != k.len());
        } else if q == 8 {
            assert(L[8].len() != k.len());
        } else if q == 9 {
            assert(L[9].len() != k.len());
        } else if q == 10 {
            assert(L[10].len() != k.len());
        } else if q == 11 {
            assert(L[11].len() != k.len());
        } else if q == 12 {
            assert(L[12].len() != k.len());
        } else if q == 13 {
            assert(L[13].len() != k.len());
        } else if q == 14 {
            assert(L[14].len() != k.len());
        } else if q == 15 {
            assert(L[15][0] != k[0]);
        } else if q == 16 {
            assert(L[16].len() != k.len());
        } else if q == 17 {
            assert(L[17].len() != k.len());
        } else if q == 18 {
            assert(L[18].len() != k.len());
        } else if q == 19 {
            assert(L[19].len() != k.len());
        } else if q == 20 {
            assert(L[20].len() != k.len());
        } else if q == 21 {
            assert(L[21].len() != k.len());
        } else if q == 22 {
            assert(L[22].len() != k.len());
        } else if q == 23 {
            assert(L[23].len() != k.len());
        } else if q == 24 {
            assert(L[24][0] != k[0]);
        } else if q == 25 {
            assert(L[25].len() != k.len());
        } else if q == 26 {
            assert(L[26].len() != k.len());
        }
    }
    assert(!L.contains(k));
    }
    {
    let L = duplicate_files_backends();
    assert forall|q: int| 0 <= q < L.len() implies L[q] != k by {
        if q == 0 {
            assert(L[0].len() != k.len());
        } else if q == 1 {
            assert(L[1].len() != k.len());
        } else if q == 2 {
            assert(L[2].len() != k.len());
        } else if q == 3 {
            assert(L[3].len() != k.len());
        } else if q == 4 {
            assert(L[4].len() != k.len());
        } else if q == 5 {
            assert(L[5].len() != k.len());
        }
    }
    assert(!L.contains(k));
    }
}

proof fn lemma_entry_1()
    ensures
        features_table()[1].1.put_stream == !no_put_stream_backends().contains(features_table()[1].0),
        features_table()[1].1.duplicate_files == duplicate_files_backends().contains(features_table()[1].0),
{
    reveal_strlit("azurefiles");
    reveal_strlit("cloudinary");
    reveal_strlit("drive");
    reveal_strlit("fichier");
    reveal_strlit("filefabric");
    reveal_strlit("filelu");
    reveal_strlit("gofile");
    reveal_strlit("google photos");
    reveal_strlit("huaweidrive");
    reveal_strlit("iclouddrive");
    reveal_strlit("imagekit");
    reveal_strlit("internetarchive");
    reveal_strlit("internxt");
    reveal_strlit("jottacloud");
    reveal_strlit("linkbox");
    reveal_strlit("mailru");
    reveal_strlit("mega");
    reveal_strlit("onedrive");
    reveal_strlit("opendrive");
    reveal_strlit("pcloud");
    reveal_strlit("pikpak");
    reveal_strlit("premiumizeme");
    reveal_strlit("protondrive");
    reveal_strlit("putio");
    reveal_strlit("qingstor");
    reveal_strlit("quatrix");
    reveal_strlit("shade");
    reveal_strlit("sharefile");
    reveal_strlit("ulozto");
    reveal_strlit("zoho");
    let k = features_table()[1].0;
    assert(k == "azurefiles"@);
    {
    let L = no_put_stream_backends();
    assert forall|q: int| 0 <= q < L.len() implies L[q] != k by {
        if q == 0 {
            assert(L[0][0] != k[0]);
        } else if q == 1 {
            assert(L[1].len() != k.len());
        } else if q == 2 {
            assert(L[2][0] != k[0]);
        } else if q == 3 {
            assert(L[3].len() != k.len());
        } else if q == 4 {
            assert(L[4].len() != k.len());
        } else if q == 5 {
            assert(L[5].len() != k.len());
        } else if q == 6 {
            assert(L[6].len() != k.len());
        } else if q == 7 {
            assert(L[7].len() != k.len());
        } else if q == 8 {
            assert(L[8].len() != k.len());
        } else if q == 9 {
            assert(L[9].len() != k.len());
        } else if q == 10 {
            assert(L[10][0] != k[0]);
        } else if q == 11 {
            assert(L[11].len() != k.len());
        } else if q == 12 {
            assert(L[12].len() != k.len());
        } else if q == 13 {
            assert(L[13].len() != k.len());
        } else if q == 14 {
            assert(L[14].len() != k.len());
        } else if q == 15 {
            assert(L[15].len() != k.len());
        } else if q == 16 {
            assert(L[16].len() != k.len());
        } else if q == 17 {
            assert(L[17].len() != k.len());
        } else if q == 18 {
            assert(L[18].len() != k.len());
        } else if q == 19 {
            assert(L[19].len() != k.len());
        } else if q == 20 {
            assert(L[20].len() != k.len());
        } else if q == 21 {
            assert(L[21].len() != k.len());
        } else if q == 22 {
            assert(L[22].len() != k.len());
        } else if q == 23 {
            assert(L[23].len() != k.len());
        } else if q == 24 {
            assert(L[24].len() != k.len());
        } else if q == 25 {
            assert(L[25].len() != k.len());
        } else if q == 26 {
            assert(L[26].len() != k.len());
        }
    }
    assert(!L.contains(k));
    }
    {
    let L = duplicate_files_backends();
    assert forall|q: int| 0 <= q < L.len() implies L[q] != k by {
        if q == 0 {
            assert(L[0].len() != k.len());
        } else if q == 1 {
            assert(L[1].len() != k.len());
        } else if q == 2 {
            assert(L[2].len() != k.len());
        } else if q == 3 {
            assert(L[3].len() != k.len());
        } else if q == 4 {
            assert(L[4].len() != k.len());
        } else if q == 5 {
            assert(L[5].len() != k.len());
        }
    }
    assert(!L.contains(k));
    }
}

proof fn lemma_entry_2()
    ensures
        features_table()[2].1.put_stream == !no_put_stream_backends().contains(features_table()[2].0),
        features_table()[2].1.duplicate_files == duplicate_files_backends().contains(features_table()[2].0),
{
    reveal_strlit("b2");
    reveal_strlit("cloudinary");
    reveal_strlit("drive");
    reveal_strlit("fichier");
    reveal_strlit("filefabric");
    reveal_strlit("filelu");
    reveal_strlit("gofile");
    reveal_strlit("google photos");
    reveal_strlit("huaweidrive");
    reveal_strlit("iclouddrive");
    reveal_strlit("imagekit");
    reveal_strlit("internetarchive");
    reveal_strlit("internxt");
    reveal_strlit("jottacloud");
    reveal_strlit("linkbox");
    reveal_strlit("mailru");
    reveal_strlit("mega");
    reveal_strlit("onedrive");
    reveal_strlit("opendrive");
    reveal_strlit("pcloud");
    reveal_strlit("pikpak");
    reveal_strlit("premiumizeme");
    reveal_strlit("protondrive");
    reveal_strlit("putio");
    reveal_strlit("qingstor");
    reveal_strlit("quatrix");
    reveal_strlit("shade");
    reveal_strlit("sharefile");
    reveal_strlit("ulozto");
    reveal_strlit("zoho");
    let k = features_table()[2].0;
    assert(k == "b2"@);
    {
    let L = no_put_stream_backends();
    assert forall|q: int| 0 <= q < L.len() implies L[q] != k by {
        if q == 0 {
            assert(L[0].len() != k.len());
        } else if q == 1 {
            assert(L[1].len() != k.len());
        } else if q == 2 {
            assert(L[2].len() != k.len());
        } else if q == 3 {
            assert(L[3].len() != k.len());
        } else if q == 4 {
            assert(L[4].len() != k.len());
        } else if q == 5 {
            assert(L[5].len() != k.len());
        } else if q == 6 {
            assert(L[6].len() != k.len());
        } else if q == 7 {
            assert(L[7].len() != k.len());
        } else if q == 8 {
            assert(L[8].len() != k.len());
        } else if q == 9 {
            assert(L[9].len() != k.len());
        } else if q == 10 {
            assert(L[10].len() != k.len());
        } else if q == 11 {
            assert(L[11].len() != k.len());
        } else if q == 12 {
            assert(L[12].len() != k.len());
        } else if q == 13 {
            assert(L[13].len() != k.len());
        } else if q == 14 {
            assert(L[14].len() != k.len());
        } else if q == 15 {
            assert(L[15].len() != k.len());
        } else if q == 16 {
            assert(L[16].len() != k.len());
        } else if q == 17 {
            assert(L[17].len() != k.len());
        } else if q == 18 {
            assert(L[18].len() != k.len());
        } else if q == 19 {
            assert(L[19].len() != k.len());
        } else if q == 20 {
            assert(L[20].len() != k.len());
        } else if q == 21 {
            assert(L[21].len() != k.len());
        } else if q == 22 {
            assert(L[22].len() != k.len());
        } else if q == 23 {
            assert(L[23].len() != k.len());
        } else if q == 24 {
            assert(L[24].len() != k.len());
        } else if q == 25 {
            assert(L[25].len() != k.len());
        } else if q == 26 {
            assert(L[26].len() != k.len());
        }
    }
    assert(!L.contains(k));
    }
    {
    let L = duplicate_files_backends();
    assert forall|q: int| 0 <= q < L.len() implies L[q] != k by {
        if q == 0 {
            assert(L[0].len() != k.len());
        } else if q == 1 {
            assert(L[1].len() != k.len());
        } else if q == 2 {
            assert(L[2].len() != k.len());
        } else if q == 3 {
            assert(L[3].len() != k.len());
        } else if q == 4 {
            assert(L[4].len() != k.len());
        } else if q == 5 {
            assert(L[5].len() != k.len());
        }
    }
    assert(!L.contains(k));
    }
}

proof fn lemma_entry_3()
    ensures
        features_table()[3].1.put_stream == !no_put_stream_backends().contains(features_table()[3].0),
        features_table()[3].1.duplicate_files == duplicate_files_backends().contains(features_table()[3].0),
{
    reveal_strlit("box");
    reveal_strlit("cloudinary");
    reveal_strlit("drive");
    reveal_strlit("fichier");
    reveal_strlit("filefabric");
    reveal_strlit("filelu");
    reveal_strlit("gofile");
    reveal_strlit("google photos");
    reveal_strlit("huaweidrive");
    reveal_strlit("iclouddrive");
    reveal_strlit("imagekit");
    reveal_strlit("internetarchive");
    reveal_strlit("internxt");
    reveal_strlit("jottacloud");
    reveal_strlit("linkbox");
    reveal_strlit("mailru");
    reveal_strlit("mega");
    reveal_strlit("onedrive");
    reveal_strlit("opendrive");
    reveal_strlit("pcloud");
    reveal_strlit("pikpak");
    reveal_strlit("premiumizeme");
    reveal_strlit("protondrive");
    reveal_strlit("putio");
    reveal_strlit("qingstor");
    reveal_strlit("quatrix");
    reveal_strlit("shade");
    reveal_strlit("sharefile");
    reveal_strlit("ulozto");
    reveal_strlit("zoho");
    let k = features_table()[3].0;
    assert(k == "box"@);
    {
    let L = no_put_stream_backends();
    assert forall|q: int| 0 <= q < L.len() implies L[q] != k by {
        if q == 0 {
            assert(L[0].len() != k.len());
        } else if q == 1 {
            assert(L[1].len() != k.len());
        } else if q == 2 {
            assert(L[2].len() != k.len());
        } else if q == 3 {
            assert(L[3].len() != k.len());
        } else if q == 4 {
            assert(L[4].len() != k.len());
        } else if q == 5 {
            assert(L[5].len() != k.len());
        } else if q == 6 {
            assert(L[6].len() != k.len());
        } else if q == 7 {
            assert(L[7].len() != k.len());
        } else if q == 8 {
            assert(L[8].len() != k.len());
        } else if q == 9 {
            assert(L[9].len() != k.len());
        } else if q == 10 {
            assert(L[10].len() != k.len());
        } else if q == 11 {
            assert(L[11].len() != k.len());
        } else if q == 12 {
            assert(L[12].len() != k.len());
        } else if q == 13 {
            assert(L[13].len() != k.len());
        } else if q == 14 {
            assert(L[14].len() != k.len());
        } else if q == 15 {
            assert(L[15].len() != k.len());
        } else if q == 16 {
            assert(L[16].len() != k.len());
        } else if q == 17 {
            assert(L[17].len() != k.len());
        } else if q == 18 {
            assert(L[18].len() != k.len());
        } else if q == 19 {
            assert(L[19].len() != k.len());
        } else if q == 20 {
            assert(L[20].len() != k.len());
        } else if q == 21 {
            assert(L[21].len() != k.len());
        } else if q == 22 {
            assert(L[22].len() != k.len());
        } else if q == 23 {
            assert(L[23].len() != k.len());
        } else if q == 24 {
            assert(L[24].len() != k.len());
        } else if q == 25 {
            assert(L[25].len() != k.len());
        } else if q == 26 {
            assert(L[26].len() != k.len());
        }
    }
    assert(!L.contains(k));
    }
    {
    let L = duplicate_files_backends();
    assert forall|q: int| 0 <= q < L.len() implies L[q] != k by {
        if q == 0 {
            assert(L[0].len() != k.len());
        } else if q == 1 {
            assert(L[1].len() != k.len());
        } else if q == 2 {
            assert(L[2].len() != k.len());
        } else if q == 3 {
            assert(L[3].len() != k.len());
        } else if q == 4 {
            assert(L[4].len() != k.len());
        } else if q == 5 {
            assert(L[5].len() != k.len());
        }
    }
    assert(!L.contains(k));
    }
}

proof fn lemma_entry_4()
    ensures
        features_table()[4].1.put_stream == !no_put_stream_backends().contains(features_table()[4].0),
        features_table()[4].1.duplicate_files == duplicate_files_backends().contains(features_table()[4].0),
{
    reveal_strlit("cloudinary");
    reveal_strlit("drive");
    reveal_strlit("fichier");
    reveal_strlit("filefabric");
    reveal_strlit("filelu");
    reveal_strlit("gofile");
    reveal_strlit("google photos");
    reveal_strlit("huaweidrive");
    reveal_strlit("iclouddrive");
    reveal_strlit("imagekit");
    reveal_strlit("internetarchive");
    reveal_strlit("internxt");
    reveal_strlit("jottacloud");
    reveal_strlit("linkbox");
    reveal_strlit("mailru");
    reveal_strlit("mega");
    reveal_strlit("onedrive");
    reveal_strlit("opendrive");
    reveal_strlit("pcloud");
    reveal_strlit("pikpak");
    reveal_strlit("premiumizeme");
    reveal_strlit("protondrive");
    reveal_strlit("putio");
    reveal_strlit("qingstor");
    reveal_strlit("quatrix");
    reveal_strlit("shade");
    reveal_strlit("sharefile");
    reveal_strlit("ulozto");
    reveal_strlit("zoho");
    let k = features_table()[4].0;
    assert(k == "cloudinary"@);
    {
    let L = no_put_stream_backends();
    assert(L[0] == k);
    }
    {
    let L = duplicate_files_backends();
    assert forall|q: int| 0 <= q < L.len() implies L[q] != k by {
        if q == 0 {
            assert(L[0].len() != k.len());
        } else if q == 1 {
            assert(L[1].len() != k.len());
        } else if q == 2 {
            assert(L[2].len() != k.len());
        } else if q == 3 {
            assert(L[3].len() != k.len());
        } else if q == 4 {
            assert(L[4].len() != k.len());
        } else if q == 5 {
            assert(L[5].len() != k.len());
        }
    }
    assert(!L.contains(k));
    }
}

proof fn lemma_entry_5()
    ensures
        features_table()[5].1.put_stream == !no_put_stream_backends().contains(features_table()[5].0),
        features_table()[5].1.duplicate_files == duplicate_files_backends().contains(features_table()[5].0),
{
    reveal_strlit("cloudinary");
    reveal_strlit("doi");
    reveal_strlit("drive");
    reveal_strlit("fichier");
    reveal_strlit("filefabric");
    reveal_strlit("filelu");
    reveal_strlit("gofile");
    reveal_strlit("google photos");
    reveal_strlit("huaweidrive");
    reveal_strlit("iclouddrive");
    reveal_strlit("imagekit");
    reveal_strlit("internetarchive");
    reveal_strlit("internxt");
    reveal_strlit("jottacloud");
    reveal_strlit("linkbox");
    reveal_strlit("mailru");
    reveal_strlit("mega");
    reveal_strlit("onedrive");
    reveal_strlit("opendrive");
    reveal_strlit("pcloud");
    reveal_strlit("pikpak");
    reveal_strlit("premiumizeme");
    reveal_strlit("protondrive");
    reveal_strlit("putio");
    reveal_strlit("qingstor");
    reveal_strlit("quatrix");
    reveal_strlit("shade");
    reveal_strlit("sharefile");
    reveal_strlit("ulozto");
    reveal_strlit("zoho");
    let k = features_table()[5].0;
    assert(k == "doi"@);
    {
    let L = no_put_stream_backends();
    assert forall|q: int| 0 <= q < L.len() implies L[q] != k by {
        if q == 0 {
            assert(L[0].len() != k.len());
        } else if q == 1 {
            assert(L[1].len() != k.len());
        } else if q == 2 {
            assert(L[2].len() != k.len());
        } else if q == 3 {
            assert(L[3].len() != k.len());
        } else if q == 4 {
            assert(L[4].len() != k.len());
        } else if q == 5 {
            assert(L[5].len() != k.len());
        } else if q == 6 {
            assert(L[6].len() != k.len());
        } else if q == 7 {
            assert(L[7].len() != k.len());
        } else if q == 8 {
            assert(L[8].len() != k.len());
        } else if q == 9 {
            assert(L[9].len() != k.len());
        } else if q == 10 {
            assert(L[10].len() != k.len());
        } else if q == 11 {
            assert(L[11].len() != k.len());
        } else if q == 12 {
            assert(L[12].len() != k.len());
        } else if q == 13 {
            assert(L[13].len() != k.len());
        } else if q == 14 {
            assert(L[14].len() != k.len());
        } else if q == 15 {
            assert(L[15].len() != k.len());
        } else if q == 16 {
            assert(L[16].len() != k.len());
        } else if q == 17 {
            assert(L[17].len() != k.len());
        } else if q == 18 {
            assert(L[18].len() != k.len());
        } else if q == 19 {
            assert(L[19].len() != k.len());
        } else if q == 20 {
            assert(L[20].len() != k.len());
        } else if q == 21 {
            assert(L[21].len() != k.len());
        } else if q == 22 {
            assert(L[22].len() != k.len());
        } else if q == 23 {
            assert(L[23].len() != k.len());
        } else if q == 24 {
            assert(L[24].len() != k.len());
        } else if q == 25 {
            assert(L[25].len() != k.len());
        } else if q == 26 {
            assert(L[26].len() != k.len());
        }
    }
    assert(!L.contains(k));
    }
    {
    let L = duplicate_files_backends();
    assert forall|q: int| 0 <= q < L.len() implies L[q] != k by {
        if q == 0 {
            assert(L[0].len() != k.len());
        } else if q == 1 {
            assert(L[1].len() != k.len());
        } else if q == 2 {
            assert(L[2].len() != k.len());
        } else if q == 3 {
            assert(L[3].len() != k.len());
        } else if q == 4 {
            assert(L[4].len() != k.len());
        } else if q == 5 {
            assert(L[5].len() != k.len());
        }
    }
    assert(!L.contains(k));
    }
}

proof fn lemma_entry_6()
    ensures
        features_table()[6].1.put_stream == !no_put_stream_backends().contains(features_table()[6].0),
        features_table()[6].1.duplicate_files == duplicate_files_backends().contains(features_table()[6].0),
{
    reveal_strlit("cloudinary");
    reveal_strlit("drime");
    reveal_strlit("drive");
    reveal_strlit("fichier");
    reveal_strlit("filefabric");
    reveal_strlit("filelu");
    reveal_strlit("gofile");
    reveal_strlit("google photos");
    reveal_strlit("huaweidrive");
    reveal_strlit("iclouddrive");
    reveal_strlit("imagekit");
    reveal_strlit("internetarchive");
    reveal_strlit("internxt");
    reveal_strlit("jottacloud");
    reveal_strlit("linkbox");
    reveal_strlit("mailru");
    reveal_strlit("mega");
    reveal_strlit("onedrive");
    reveal_strlit("opendrive");
    reveal_strlit("pcloud");
    reveal_strlit("pikpak");
    reveal_strlit("premiumizeme");
    reveal_strlit("protondrive");
    reveal_strlit("putio");
    reveal_strlit("qingstor");
    reveal_strlit("quatrix");
    reveal_strlit("shade");
    reveal_strlit("sharefile");
    reveal_strlit("ulozto");
    reveal_strlit("zoho");
    let k = features_table()[6].0;
    assert(k == "drime"@);
    {
    let L = no_put_stream_backends();
    assert forall|q: int| 0 <= q < L.len() implies L[q] != k by {
        if q == 0 {
            assert(L[0].len() != k.len());
        } else if q == 1 {
            assert(L[1].len() != k.len());
        } else if q == 2 {
            assert(L[2].len() != k.len());
        } else if q == 3 {
            assert(L[3].len() != k.len());
        } else if q == 4 {
            assert(L[4].len() != k.len());
        } else if q == 5 {
            assert(L[5].len() != k.len());
        } else if q == 6 {
            assert(L[6].len() != k.len());
        } else if q == 7 {
            assert(L[7].len() != k.len());
        } else if q == 8 {
            assert(L[8].len() != k.len());
        } else if q == 9 {
            assert(L[9].len() != k.len());
        } else if q == 10 {
            assert(L[10].len() != k.len());
        } else if q == 11 {
            assert(L[11].len() != k.len());
        } else if q == 12 {
            assert(L[12].len() != k.len());
        } else if q == 13 {
            assert(L[13].len() != k.len());
        } else if q == 14 {
            assert(L[14].len() != k.len());
        } else if q == 15 {
            assert(L[15].len() != k.len());
        } else if q == 16 {
            assert(L[16].len() != k.len());
        } else if q == 17 {
            assert(L[17].len() != k.len());
        } else if q == 18 {
            assert(L[18].len() != k.len());
        } else if q == 19 {
            assert(L[19].len() != k.len());
        } else if q == 20 {
            assert(L[20][0] != k[0]);
        } else if q == 21 {
            assert(L[21].len() != k.len());
        } else if q == 22 {
            assert(L[22].len() != k.len());
        } else if q == 23 {
            assert(L[23][0] != k[0]);
        } else if q == 24 {
            assert(L[24].len() != k.len());
        } else if q == 25 {
            assert(L[25].len() != k.len());
        } else if q == 26 {
            assert(L[26].len() != k.len());
        }
    }
    assert(!L.contains(k));
    }
    {
    let L = duplicate_files_backends();
    assert forall|q: int| 0 <= q < L.len() implies L[q] != k by {
        if q == 0 {
            assert(L[0][3] != k[3]);
        } else if q == 1 {
            assert(L[1].len() != k.len());
        } else if q == 2 {
            assert(L[2].len() != k.len());
        } else if q == 3 {
            assert(L[3].len() != k.len());
        } else if q == 4 {
            assert(L[4][0] != k[0]);
        } else if q == 5 {
            assert(L[5].len() != k.len());
        }
    }
    assert(!L.contains(k));
    }
}

proof fn lemma_entry_7()
    ensures
        features_table()[7].1.put_stream == !no_put_stream_backends().contains(features_table()[7].0),
        features_table()[7].1.duplicate_files == duplicate_files_backends().contains(features_table()[7].0),
{
    reveal_strlit("cloudinary");
    reveal_strlit("drive");
    reveal_strlit("fichier");
    reveal_strlit("filefabric");
    reveal_strlit("filelu");
    reveal_strlit("gofile");
    reveal_strlit("google photos");
    reveal_strlit("huaweidrive");
    reveal_strlit("iclouddrive");
    reveal_strlit("imagekit");
    reveal_strlit("internetarchive");
    reveal_strlit("internxt");
    reveal_strlit("jottacloud");
    reveal_strlit("linkbox");
    reveal_strlit("mailru");
    reveal_strlit("mega");
    reveal_strlit("onedrive");
    reveal_strlit("opendrive");
    reveal_strlit("pcloud");
    reveal_strlit("pikpak");
    reveal_strlit("premiumizeme");
    reveal_strlit("protondrive");
    reveal_strlit("putio");
    reveal_strlit("qingstor");
    reveal_strlit("quatrix");
    reveal_strlit("shade");
    reveal_strlit("sharefile");
    reveal_strlit("ulozto");
    reveal_strlit("zoho");
    let k = features_table()[7].0;
    assert(k == "drive"@);
    {
    let L = no_put_stream_backends();
    assert forall|q: int| 0 <= q < L.len() implies L[q] != k by {
        if q == 0 {
            assert(L[0].len() != k.len());
        } else if q == 1 {
            assert(L[1].len() != k.len());
        } else if q == 2 {
            assert(L[2].len() != k.len());
        } else if q == 3 {
            assert(L[3].len() != k.len());
        } else if q == 4 {
            assert(L[4].len() != k.len());
        } else if q == 5 {
            assert(L[5].len() != k.len());
        } else if q == 6 {
            assert(L[6].len() != k.len());
        } else if q == 7 {
            assert(L[7].len() != k.len());
        } else if q == 8 {
            assert(L[8].len() != k.len());
        } else if q == 9 {
            assert(L[9].len() != k.len());
        } else if q == 10 {
            assert(L[10].len() != k.len());
        } else if q == 11 {
            assert(L[11].len() != k.len());
        } else if q == 12 {
            assert(L[12].len() != k.len());
        } else if q == 13 {
            assert(L[13].len() != k.len());
        } else if q == 14 {
            assert(L[14].len() != k.len());
        } else if q == 15 {
            assert(L[15].len() != k.len());
        } else if q == 16 {
            assert(L[16].len() != k.len());
        } else if q == 17 {
            assert(L[17].len() != k.len());
        } else if q == 18 {
            assert(L[18].len() != k.len());
        } else if q == 19 {
            assert(L[19].len() != k.len());
        } else if q == 20 {
            assert(L[20][0] != k[0]);
        } else if q == 21 {
            assert(L[21].len() != k.len());
        } else if q == 22 {
            assert(L[22].len() != k.len());
        } else if q == 23 {
            assert(L[23][0] != k[0]);
        } else if q == 24 {
            assert(L[24].len() != k.len());
        } else if q == 25 {
            assert(L[25].len() != k.len());
        } else if q == 26 {
            assert(L[26].len() != k.len());
        }
    }
    assert(!L.contains(k));
    }
    {
    let L = duplicate_files_backends();
    assert(L[0] == k);
    }
}

proof fn lemma_entry_8()
    ensures
        features_table()[8].1.put_stream == !no_put_stream_backends().contains(features_table()[8].0),
        features_table()[8].1.duplicate_files == duplicate_files_backends().contains(features_table()[8].0),
{
    reveal_strlit("cloudinary");
    reveal_strlit("drive");
    reveal_strlit("dropbox");
    reveal_strlit("fichier");
    reveal_strlit("filefabric");
    reveal_strlit("filelu");
    reveal_strlit("gofile");
    reveal_strlit("google photos");
    reveal_strlit("huaweidrive");
    reveal_strlit("iclouddrive");
    reveal_strlit("imagekit");
    reveal_strlit("internetarchive");
    reveal_strlit("internxt");
    reveal_strlit("jottacloud");
    reveal_strlit("linkbox");
    reveal_strlit("mailru");
    reveal_strlit("mega");
    reveal_strlit("onedrive");
    reveal_strlit("opendrive");
    reveal_strlit("pcloud");
    reveal_strlit("pikpak");
    reveal_strlit("premiumizeme");
    reveal_strlit("protondrive");
    reveal_strlit("putio");
    reveal_strlit("qingstor");
    reveal_strlit("quatrix");
    reveal_strlit("shade");
    reveal_strlit("sharefile");
    reveal_strlit("ulozto");
    reveal_strlit("zoho");
    let k = features_table()[8].0;
    assert(k == "dropbox"@);
    {
    let L = no_put_stream_backends();
    assert forall|q: int| 0 <= q < L.len() implies L[q] != k by {
        if q == 0 {
            assert(L[0].len() != k.len());
        } else if q == 1 {
            assert(L[1][0] != k[0]);
        } else if q == 2 {
            assert(L[2].len() != k.len());
        } else if q == 3 {
            assert(L[3].len() != k.len());
        } else if q == 4 {
            assert(L[4].len() != k.len());
        } else if q == 5 {
            assert(L[5].len() != k.len());
        } else if q == 6 {
            assert(L[6].len() != k.len());
        } else if q == 7 {
            assert(L[7].len() != k.len());
        } else if q == 8 {
            assert(L[8].len() != k.len());
        } else if q == 9 {
            assert(L[9].len() != k.len());
        } else if q == 10 {
            assert(L[10].len() != k.len());
        } else if q == 11 {
            assert(L[11][0] != k[0]);
        } else if q == 12 {
            assert(L[12].len() != k.len());
        } else if q == 13 {
            assert(L[13].len() != k.len());
        } else if q == 14 {
            assert(L[14].len() != k.len());
        } else if q == 15 {
            assert(L[15].len() != k.len());
        } else if q == 16 {
            assert(L[16].len() != k.len());
        } else if q == 17 {
            assert(L[17].len() != k.len());
        } else if q == 18 {
            assert(L[18].len() != k.len());
        } else if q == 19 {
            assert(L[19].len() != k.len());
        } else if q == 20 {
            assert(L[20].len() != k.len());
        } else if q == 21 {
            assert(L[21].len() != k.len());
        } else if q == 22 {
            assert(L[22][0] != k[0]);
        } else if q == 23 {
            assert(L[23].len() != k.len());
        } else if q == 24 {
            assert(L[24].len() != k.len());
        } else if q == 25 {
            assert(L[25].len() != k.len());
        } else if q == 26 {
            assert(L[26].len() != k.len());
        }
    }
    assert(!L.contains(k));
    }
    {
    let L = duplicate_files_backends();
    assert forall|q: int| 0 <= q < L.len() implies L[q] != k by {
        if q == 0 {
            assert(L[0].len() != k.len());
        } else if q == 1 {
            assert(L[1][0] != k[0]);
        } else if q == 2 {
            assert(L[2].len() != k.len());
        } else if q == 3 {
            assert(L[3].len() != k.len());
        } else if q == 4 {
            assert(L[4].len() != k.len());
        } else if q == 5 {
            assert(L[5].len() != k.len());
        }
    }
    assert(!L.contains(k));
    }
}

proof fn lemma_entry_9()
    ensures
        features_table()[9].1.put_stream == !no_put_stream_backends().contains(features_table()[9].0),
        features_table()[9].1.duplicate_files == duplicate_files_backends().contains(features_table()[9].0),
{
    reveal_strlit("cloudinary");
    reveal_strlit("drive");
    reveal_strlit("fichier");
    reveal_strlit("filefabric");
    reveal_strlit("filelu");
    reveal_strlit("gofile");
    reveal_strlit("google photos");
    reveal_strlit("huaweidrive");
    reveal_strlit("iclouddrive");
    reveal_strlit("imagekit");
    reveal_strlit("internetarchive");
    reveal_strlit("internxt");
    reveal_strlit("jottacloud");
    reveal_strlit("linkbox");
    reveal_strlit("mailru");
    reveal_strlit("mega");
    reveal_strlit("onedrive");
    reveal_strlit("opendrive");
    reveal_strlit("pcloud");
    reveal_strlit("pikpak");
    reveal_strlit("premiumizeme");
    reveal_strlit("protondrive");
    reveal_strlit("putio");
    reveal_strlit("qingstor");
    reveal_strlit("quatrix");
    reveal_strlit("shade");
    reveal_strlit("sharefile");
    reveal_strlit("ulozto");
    reveal_strlit("zoho");
    let k = features_table()[9].0;
    assert(k == "fichier"@);
    {
    let L = no_put_stream_backends();
    assert(L[1] == k);
    }
    {
    let L = duplicate_files_backends();
    assert(L[1] == k);
    }
}

proof fn lemma_entry_10()
    ensures
        features_table()[10].1.put_stream == !no_put_stream_backends().contains(features_table()[10].0),
        features_table()[10].1.duplicate_files == duplicate_files_backends().contains(features_table()[10].0),
{
    reveal_strlit("cloudinary");
    reveal_strlit("drive");
    reveal_strlit("fichier");
    reveal_strlit("filefabric");
    reveal_strlit("filelu");
    reveal_strlit("gofile");
    reveal_strlit("google photos");
    reveal_strlit("huaweidrive");
    reveal_strlit("iclouddrive");
    reveal_strlit("imagekit");
    reveal_strlit("internetarchive");
    reveal_strlit("internxt");
    reveal_strlit("jottacloud");
    reveal_strlit("linkbox");
    reveal_strlit("mailru");
    reveal_strlit("mega");
    reveal_strlit("onedrive");
    reveal_strlit("opendrive");
    reveal_strlit("pcloud");
    reveal_strlit("pikpak");
    reveal_strlit("premiumizeme");
    reveal_strlit("protondrive");
    reveal_strlit("putio");
    reveal_strlit("qingstor");
    reveal_strlit("quatrix");
    reveal_strlit("shade");
    reveal_strlit("sharefile");
    reveal_strlit("ulozto");
    reveal_strlit("zoho");
    let k = features_table()[10].0;
    assert(k == "filefabric"@);
    {
    let L = no_put_stream_backends();
    assert(L[2] == k);
    }
    {
    let L = duplicate_files_backends();
    assert forall|q: int| 0 <= q < L.len() implies L[q] != k by {
        if q == 0 {
            assert(L[0].len() != k.len());
        } else if q == 1 {
            assert(L[1].len() != k.len());
        } else if q == 2 {
            assert(L[2].len() != k.len());
        } else if q == 3 {
            assert(L[3].len() != k.len());
        } else if q == 4 {
            assert(L[4].len() != k.len());
        } else if q == 5 {
            assert(L[5].len() != k.len());
        }
    }
    assert(!L.contains(k));
    }
}

proof fn lemma_entry_11()
    ensures
        features_table()[11].1.put_stream == !no_put_stream_backends().contains(features_table()[11].0),
        features_table()[11].1.duplicate_files == duplicate_files_backends().contains(features_table()[11].0),
{
    reveal_strlit("cloudinary");
    reveal_strlit("drive");
    reveal_strlit("fichier");
    reveal_strlit("filefabric");
    reveal_strlit("filelu");
    reveal_strlit("gofile");
    reveal_strlit("google photos");
    reveal_strlit("huaweidrive");
    reveal_strlit("iclouddrive");
    reveal_strlit("imagekit");
    reveal_strlit("internetarchive");
    reveal_strlit("internxt");
    reveal_strlit("jottacloud");
    reveal_strlit("linkbox");
    reveal_strlit("mailru");
    reveal_strlit("mega");
    reveal_strlit("onedrive");
    reveal_strlit("opendrive");
    reveal_strlit("pcloud");
    reveal_strlit("pikpak");
    reveal_strlit("premiumizeme");
    reveal_strlit("protondrive");
    reveal_strlit("putio");
    reveal_strlit("qingstor");
    reveal_strlit("quatrix");
    reveal_strlit("shade");
    reveal_strlit("sharefile");
    reveal_strlit("ulozto");
    reveal_strlit("zoho");
    let k = features_table()[11].0;
    assert(k == "filelu"@);
    {
    let L = no_put_stream_backends();
    assert(L[3] == k);
    }
    {
    let L = duplicate_files_backends();
    assert forall|q: int| 0 <= q < L.len() implies L[q] != k by {
        if q == 0 {
            assert(L[0].len() != k.len());
        } else if q == 1 {
            assert(L[1].len() != k.len());
        } else if q == 2 {
            assert(L[2][0] != k[0]);
        } else if q == 3 {
            assert(L[3].len() != k.len());
        } else if q == 4 {
            assert(L[4].len() != k.len());
        } else if q == 5 {
            assert(L[5][0] != k[0]);
        }
    }
    assert(!L.contains(k));
    }
}

proof fn lemma_entry_12()
    ensures
        features_table()[12].1.put_stream == !no_put_stream_backends().contains(features_table()[12].0),
        features_table()[12].1.duplicate_files == duplicate_files_backends().contains(features_table()[12].0),
{
    reveal_strlit("cloudinary");
    reveal_strlit("drive");
    reveal_strlit("fichier");
    reveal_strlit("filefabric");
    reveal_strlit("filelu");
    reveal_strlit("filen");
    reveal_strlit("gofile");
    reveal_strlit("google photos");
    reveal_strlit("huaweidrive");
    reveal_strlit("iclouddrive");
    reveal_strlit("imagekit");
    reveal_strlit("internetarchive");
    reveal_strlit("internxt");
    reveal_strlit("jottacloud");
    reveal_strlit("linkbox");
    reveal_strlit("mailru");
    reveal_strlit("mega");
    reveal_strlit("onedrive");
    reveal_strlit("opendrive");
    reveal_strlit("pcloud");
    reveal_strlit("pikpak");
    reveal_strlit("premiumizeme");
    reveal_strlit("protondrive");
    reveal_strlit("putio");
    reveal_strlit("qingstor");
    reveal_strlit("quatrix");
    reveal_strlit("shade");
    reveal_strlit("sharefile");
    reveal_strlit("ulozto");
    reveal_strlit("zoho");
    let k = features_table()[12].0;
    assert(k == "filen"@);
    {
    let L = no_put_stream_backends();
    assert forall|q: int| 0 <= q < L.len() implies L[q] != k by {
        if q == 0 {
            assert(L[0].len() != k.len());
        } else if q == 1 {
            assert(L[1].len() != k.len());
        } else if q == 2 {
            assert(L[2].len() != k.len());
        } else if q == 3 {
            assert(L[3].len() != k.len());
        } else if q == 4 {
            assert(L[4].len() != k.len());
        } else if q == 5 {
            assert(L[5].len() != k.len());
        } else if q == 6 {
            assert(L[6].len() != k.len());
        } else if q == 7 {
            assert(L[7].len() != k.len());
        } else if q == 8 {
            assert(L[8].len() != k.len());
        } else if q == 9 {
            assert(L[9].len() != k.len());
        } else if q == 10 {
            assert(L[10].len() != k.len());
        } else if q == 11 {
            assert(L[11].len() != k.len());
        } else if q == 12 {
            assert(L[12].len() != k.len());
        } else if q == 13 {
            assert(L[13].len() != k.len());
        } else if q == 14 {
            assert(L[14].len() != k.len());
        } else if q == 15 {
            assert(L[15].len() != k.len());
        } else if q == 16 {
            assert(L[16].len() != k.len());
        } else if q == 17 {
            assert(L[17].len() != k.len());
        } else if q == 18 {
            assert(L[18].len() != k.len());
        } else if q == 19 {
            assert(L[19].len() != k.len());
        } else if q == 20 {
            assert(L[20][0] != k[0]);
        } else if q == 21 {
            assert(L[21].len() != k.len());
        } else if q == 22 {
            assert(L[22].len() != k.len());
        } else if q == 23 {
            assert(L[23][0] != k[0]);
        } else if q == 24 {
            assert(L[24].len() != k.len());
        } else if q == 25 {
            assert(L[25].len() != k.len());
        } else if q == 26 {
            assert(L[26].len() != k.len());
        }
    }
    assert(!L.contains(k));
    }
    {
    let L = duplicate_files_backends();
    assert forall|q: int| 0 <= q < L.len() implies L[q] != k by {
        if q == 0 {
            assert(L[0][0] != k[0]);
        } else if q == 1 {
            assert(L[1].len() != k.len());
        } else if q == 2 {
            assert(L[2].len() != k.len());
        } else if q == 3 {
            assert(L[3].len() != k.len());
        } else if q == 4 {
            assert(L[4][0] != k[0]);
        } else if q == 5 {
            assert(L[5].len() != k.len());
        }
    }
    assert(!L.contains(k));
    }
}

proof fn lemma_entry_13()
    ensures
        features_table()[13].1.put_stream == !no_put_stream_backends().contains(features_table()[13].0),
        features_table()[13].1.duplicate_files == duplicate_files_backends().contains(features_table()[13].0),
{
    reveal_strlit("cloudinary");
    reveal_strlit("drive");
    reveal_strlit("fichier");
    reveal_strlit("filefabric");
    reveal_strlit("filelu");
    reveal_strlit("filescom");
    reveal_strlit("gofile");
    reveal_strlit("google photos");
    reveal_strlit("huaweidrive");
    reveal_strlit("iclouddrive");
    reveal_strlit("imagekit");
    reveal_strlit("internetarchive");
    reveal_strlit("internxt");
    reveal_strlit("jottacloud");
    reveal_strlit("linkbox");
    reveal_strlit("mailru");
    reveal_strlit("mega");
    reveal_strlit("onedrive");
    reveal_strlit("opendrive");
    reveal_strlit("pcloud");
    reveal_strlit("pikpak");
    reveal_strlit("premiumizeme");
    reveal_strlit("protondrive");
    reveal_strlit("putio");
    reveal_strlit("qingstor");
    reveal_strlit("quatrix");
    reveal_strlit("shade");
    reveal_strlit("sharefile");
    reveal_strlit("ulozto");
    reveal_strlit("zoho");
    let k = features_table()[13].0;
    assert(k == "filescom"@);
    {
    let L = no_put_stream_backends();
    assert forall|q: int| 0 <= q < L.len() implies L[q] != k by {
        if q == 0 {
            assert(L[0].len() != k.len());
        } else if q == 1 {
            assert(L[1].len() != k.len());
        } else if q == 2 {
            assert(L[2].len() != k.len());
        } else if q == 3 {
            assert(L[3].len() != k.len());
        } else if q == 4 {
            assert(L[4].len() != k.len());
        } else if q == 5 {
            assert(L[5].len() != k.len());
        } else if q == 6 {
            assert(L[6].len() != k.len());
        } else if q == 7 {
            assert(L[7][0] != k[0]);
        } else if q == 8 {
            assert(L[8].len() != k.len());
        } else if q == 9 {
            assert(L[9][0] != k[0]);
        } else if q == 10 {
            assert(L[10].len() != k.len());
        } else if q == 11 {
            assert(L[11].len() != k.len());
        } else if q == 12 {
            assert(L[12].len() != k.len());
        } else if q == 13 {
            assert(L[13].len() != k.len());
        } else if q == 14 {
            assert(L[14][0] != k[0]);
        } else if q == 15 {
            assert(L[15].len() != k.len());
        } else if q == 16 {
            assert(L[16].len() != k.len());
        } else if q == 17 {
            assert(L[17].len() != k.len());
        } else if q == 18 {
            assert(L[18].len() != k.len());
        } else if q == 19 {
            assert(L[19].len() != k.len());
        } else if q == 20 {
            assert(L[20].len() != k.len());
        } else if q == 21 {
            assert(L[21][0] != k[0]);
        } else if q == 22 {
            assert(L[22].len() != k.len());
        } else if q == 23 {
            assert(L[23].len() != k.len());
        } else if q == 24 {
            assert(L[24].len() != k.len());
        } else if q == 25 {
            assert(L[25].len() != k.len());
        } else if q == 26 {
            assert(L[26].len() != k.len());
        }
    }
    assert(!L.contains(k));
    }
    {
    let L = duplicate_files_backends();
    assert forall|q: int| 0 <= q < L.len() implies L[q] != k by {
        if q == 0 {
            assert(L[0].len() != k.len());
        } else if q == 1 {
            assert(L[1].len() != k.len());
        } else if q == 2 {
            assert(L[2].len() != k.len());
        } else if q == 3 {
            assert(L[3].len() != k.len());
        } else if q == 4 {
            assert(L[4].len() != k.len());
        } else if q == 5 {
            assert(L[5].len() != k.len());
        }
    }
    assert(!L.contains(k));
    }
}

proof fn lemma_entry_14()
    ensures
        features_table()[14].1.put_stream == !no_put_stream_backends().contains(features_table()[14].0),
        features_table()[14].1.duplicate_files == duplicate_files_backends().contains(features_table()[14].0),
{
    reveal_strlit("cloudinary");
    reveal_strlit("drive");
    reveal_strlit("fichier");
    reveal_strlit("filefabric");
    reveal_strlit("filelu");
    reveal_strlit("ftp");
    reveal_strlit("gofile");
    reveal_strlit("google photos");
    reveal_strlit("huaweidrive");
    reveal_strlit("iclouddrive");
    reveal_strlit("imagekit");
    reveal_strlit("internetarchive");
    reveal_strlit("internxt");
    reveal_strlit("jottacloud");
    reveal_strlit("linkbox");
    reveal_strlit("mailru");
    reveal_strlit("mega");
    reveal_strlit("onedrive");
    reveal_strlit("opendrive");
    reveal_strlit("pcloud");
    reveal_strlit("pikpak");
    reveal_strlit("premiumizeme");
    reveal_strlit("protondrive");
    reveal_strlit("putio");
    reveal_strlit("qingstor");
    reveal_strlit("quatrix");
    reveal_strlit("shade");
    reveal_strlit("sharefile");
    reveal_strlit("ulozto");
    reveal_strlit("zoho");
    let k = features_table()[14].0;
    assert(k == "ftp"@);
    {
    let L = no_put_stream_backends();
    assert forall|q: int| 0 <= q < L.len() implies L[q] != k by {
        if q == 0 {
            assert(L[0].len() != k.len());
        } else if q == 1 {
            assert(L[1].len() != k.len());
        } else if q == 2 {
            assert(L[2].len() != k.len());
        } else if q == 3 {
            assert(L[3].len() != k.len());
        } else if q == 4 {
            assert(L[4].len() != k.len());
        } else if q == 5 {
            assert(L[5].len() != k.len());
        } else if q == 6 {
            assert(L[6].len() != k.len());
        } else if q == 7 {
            assert(L[7].len() != k.len());
        } else if q == 8 {
            assert(L[8].len() != k.len());
        } else if q == 9 {
            assert(L[9].len() != k.len());
        } else if q == 10 {
            assert(L[10].len() != k.len());
        } else if q == 11 {
            assert(L[11].len() != k.len());
        } else if q == 12 {
            assert(L[12].len() != k.len());
        } else if q == 13 {
            assert(L[13].len() != k.len());
        } else if q == 14 {
            assert(L[14].len() != k.len());
        } else if q == 15 {
            assert(L[15].len() != k.len());
        } else if q == 16 {
            assert(L[16].len() != k.len());
        } else if q == 17 {
            assert(L[17].len() != k.len());
        } else if q == 18 {
            assert(L[18].len() != k.len());
        } else if q == 19 {
            assert(L[19].len() != k.len());
        } else if q == 20 {
            assert(L[20].len() != k.len());
        } else if q == 21 {
            assert(L[21].len() != k.len());
        } else if q == 22 {
            assert(L[22].len() != k.len());
        } else if q == 23 {
            assert(L[23].len() != k.len());
        } else if q == 24 {
            assert(L[24].len() != k.len());
        } else if q == 25 {
            assert(L[25].len() != k.len());
        } else if q == 26 {
            assert(L[26].len() != k.len());
        }
    }
    assert(!L.contains(k));
    }
    {
    let L = duplicate_files_backends();
    assert forall|q: int| 0 <= q < L.len() implies L[q] != k by {
        if q == 0 {
            assert(L[0].len() != k.len());
        } else if q == 1 {
            assert(L[1].len() != k.len());
        } else if q == 2 {
            assert(L[2].len() != k.len());
        } else if q == 3 {
            assert(L[3].len() != k.len());
        } else if q == 4 {
            assert(L[4].len() != k.len());
        } else if q == 5 {
            assert(L[5].len() != k.len());
        }
    }
    assert(!L.contains(k));
    }
}

proof fn lemma_entry_15()
    ensures
        features_table()[15].1.put_stream == !no_put_stream_backends().contains(features_table()[15].0),
        features_table()[15].1.duplicate_files == duplicate_files_backends().contains(features_table()[15].0),
{
    reveal_strlit("cloudinary");
    reveal_strlit("drive");
    reveal_strlit("fichier");
    reveal_strlit("filefabric");
    reveal_strlit("filelu");
    reveal_strlit("gofile");
    reveal_strlit("google photos");
    reveal_strlit("huaweidrive");
    reveal_strlit("iclouddrive");
    reveal_strlit("imagekit");
    reveal_strlit("internetarchive");
    reveal_strlit("internxt");
    reveal_strlit("jottacloud");
    reveal_strlit("linkbox");
    reveal_strlit("mailru");
    reveal_strlit("mega");
    reveal_strlit("onedrive");
    reveal_strlit("opendrive");
    reveal_strlit("pcloud");
    reveal_strlit("pikpak");
    reveal_strlit("premiumizeme");
    reveal_strlit("protondrive");
    reveal_strlit("putio");
    reveal_strlit("qingstor");
    reveal_strlit("quatrix");
    reveal_strlit("shade");
    reveal_strlit("sharefile");
    reveal_strlit("ulozto");
    reveal_strlit("zoho");
    let k = features_table()[15].0;
    assert(k == "gofile"@);
    {
    let L = no_put_stream_backends();
    assert forall|q: int| 0 <= q < L.len() implies L[q] != k by {
        if q == 0 {
            assert(L[0].len() != k.len());
        } else if q == 1 {
            assert(L[1].len() != k.len());
        } else if q == 2 {
            assert(L[2].len() != k.len());
        } else if q == 3 {
            assert(L[3][0] != k[0]);
        } else if q == 4 {
            assert(L[4].len() != k.len());
        } else if q == 5 {
            assert(L[5].len() != k.len());
        } else if q == 6 {
            assert(L[6].len() != k.len());
        } else if q == 7 {
            assert(L[7].len() != k.len());
        } else if q == 8 {
            assert(L[8].len() != k.len());
        } else if q == 9 {
            assert(L[9].len() != k.len());
        } else if q == 10 {
            assert(L[10].len() != k.len());
        } else if q == 11 {
            assert(L[11].len() != k.len());
        } else if q == 12 {
            assert(L[12][0] != k[0]);
        } else if q == 13 {
            assert(L[13].len() != k.len());
        } else if q == 14 {
            assert(L[14].len() != k.len());
        } else if q == 15 {
            assert(L[15].len() != k.len());
        } else if q == 16 {
            assert(L[16][0] != k[0]);
        } else if q == 17 {
            assert(L[17][0] != k[0]);
        } else if q == 18 {
            assert(L[18].len() != k.len());
        } else if q == 19 {
            assert(L[19].len() != k.len());
        } else if q == 20 {
            assert(L[20].len() != k.len());
        } else if q == 21 {
            assert(L[21].len() != k.len());
        } else if q == 22 {
            assert(L[22].len() != k.len());
        } else if q == 23 {
            assert(L[23].len() != k.len());
        } else if q == 24 {
            assert(L[24].len() != k.len());
        } else if q == 25 {
            assert(L[25][0] != k[0]);
        } else if q == 26 {
            assert(L[26].len() != k.len());
        }
    }
    assert(!L.contains(k));
    }
    {
    let L = duplicate_files_backends();
    assert(L[2] == k);
    }
}

proof fn lemma_entry_16()
    ensures
        features_table()[16].1.put_stream == !no_put_stream_backends().contains(features_table()[16].0),
        features_table()[16].1.duplicate_files == duplicate_files_backends().contains(features_table()[16].0),
{
    reveal_strlit("cloudinary");
    reveal_strlit("drive");
    reveal_strlit("fichier");
    reveal_strlit("filefabric");
    reveal_strlit("filelu");
    reveal_strlit("gofile");
    reveal_strlit("google cloud storage");
    reveal_strlit("google photos");
    reveal_strlit("huaweidrive");
    reveal_strlit("iclouddrive");
    reveal_strlit("imagekit");
    reveal_strlit("internetarchive");
    reveal_strlit("internxt");
    reveal_strlit("jottacloud");
    reveal_strlit("linkbox");
    reveal_strlit("mailru");
    reveal_strlit("mega");
    reveal_strlit("onedrive");
    reveal_strlit("opendrive");
    reveal_strlit("pcloud");
    reveal_strlit("pikpak");
    reveal_strlit("premiumizeme");
    reveal_strlit("protondrive");
    reveal_strlit("putio");
    reveal_strlit("qingstor");
    reveal_strlit("quatrix");
    reveal_strlit("shade");
    reveal_strlit("sharefile");
    reveal_strlit("ulozto");
    reveal_strlit("zoho");
    let k = features_table()[16].0;
    assert(k == "google cloud storage"@);
    {
    let L = no_put_stream_backends();
    assert forall|q: int| 0 <= q < L.len() implies L[q] != k by {
        if q == 0 {
            assert(L[0].len() != k.len());
        } else if q == 1 {
            assert(L[1].len() != k.len());
        } else if q == 2 {
            assert(L[2].len() != k.len());
        } else if q == 3 {
            assert(L[3].len() != k.len());
        } else if q == 4 {
            assert(L[4].len() != k.len());
        } else if q == 5 {
            assert(L[5].len() != k.len());
        } else if q == 6 {
            assert(L[6].len() != k.len());
        } else if q == 7 {
            assert(L[7].len() != k.len());
        } else if q == 8 {
            assert(L[8].len() != k.len());
        } else if q == 9 {
            assert(L[9].len() != k.len());
        } else if q == 10 {
            assert(L[10].len() != k.len());
        } else if q == 11 {
            assert(L[11].len() != k.len());
        } else if q == 12 {
            assert(L[12].len() != k.len());
        } else if q == 13 {
            assert(L[13].len() != k.len());
        } else if q == 14 {
            assert(L[14].len() != k.len());
        } else if q == 15 {
            assert(L[15].len() != k.len());
        } else if q == 16 {
            assert(L[16].len() != k.len());
        } else if q == 17 {
            assert(L[17].len() != k.len());
        } else if q == 18 {
            assert(L[18].len() != k.len());
        } else if q == 19 {
            assert(L[19].len() != k.len());
        } else if q == 20 {
            assert(L[20].len() != k.len());
        } else if q == 21 {
            assert(L[21].len() != k.len());
        } else if q == 22 {
            assert(L[22].len() != k.len());
        } else if q == 23 {
            assert(L[23].len() != k.len());
        } else if q == 24 {
            assert(L[24].len() != k.len());
        } else if q == 25 {
            assert(L[25].len() != k.len());
        } else if q == 26 {
            assert(L[26].len() != k.len());
        }
    }
    assert(!L.contains(k));
    }
    {
    let L = duplicate_files_backends();
    assert forall|q: int| 0 <= q < L.len() implies L[q] != k by {
        if q == 0 {
            assert(L[0].len() != k.len());
        } else if q == 1 {
            assert(L[1].len() != k.len());
        } else if q == 2 {
            assert(L[2].len() != k.len());
        } else if q == 3 {
            assert(L[3].len() != k.len());
        } else if q == 4 {
            assert(L[4].len() != k.len());
        } else if q == 5 {
            assert(L[5].len() != k.len());
        }
    }
    assert(!L.contains(k));
    }
}

proof fn lemma_entry_17()
    ensures
        features_table()[17].1.put_stream == !no_put_stream_backends().contains(features_table()[17].0),
        features_table()[17].1.duplicate_files == duplicate_files_backends().contains(features_table()[17].0),
{
    reveal_strlit("cloudinary");
    reveal_strlit("drive");
    reveal_strlit("fichier");
    reveal_strlit("filefabric");
    reveal_strlit("filelu");
    reveal_strlit("gofile");
    reveal_strlit("google photos");
    reveal_strlit("huaweidrive");
    reveal_strlit("iclouddrive");
    reveal_strlit("imagekit");
    reveal_strlit("internetarchive");
    reveal_strlit("internxt");
    reveal_strlit("jottacloud");
    reveal_strlit("linkbox");
    reveal_strlit("mailru");
    reveal_strlit("mega");
    reveal_strlit("onedrive");
    reveal_strlit("opendrive");
    reveal_strlit("pcloud");
    reveal_strlit("pikpak");
    reveal_strlit("premiumizeme");
    reveal_strlit("protondrive");
    reveal_strlit("putio");
    reveal_strlit("qingstor");
    reveal_strlit("quatrix");
    reveal_strlit("shade");
    reveal_strlit("sharefile");
    reveal_strlit("ulozto");
    reveal_strlit("zoho");
    let k = features_table()[17].0;
    assert(k == "google photos"@);
    {
    let L = no_put_stream_backends();
    assert(L[4] == k);
    }
    {
    let L = duplicate_files_backends();
    assert forall|q: int| 0 <= q < L.len() implies L[q] != k by {
        if q == 0 {
            assert(L[0].len() != k.len());
        } else if q == 1 {
            assert(L[1].len() != k.len());
        } else if q == 2 {
            assert(L[2].len() != k.len());
        } else if q == 3 {
            assert(L[3].len() != k.len());
        } else if q == 4 {
            assert(L[4].len() != k.len());
        } else if q == 5 {
            assert(L[5].len() != k.len());
        }
    }
    assert(!L.contains(k));
    }
}

proof fn lemma_entry_18()
    ensures
        features_table()[18].1.put_stream == !no_put_stream_backends().contains(features_table()[18].0),
        features_table()[18].1.duplicate_files == duplicate_files_backends().contains(features_table()[18].0),
{
    reveal_strlit("cloudinary");
    reveal_strlit("drive");
    reveal_strlit("fichier");
    reveal_strlit("filefabric");
    reveal_strlit("filelu");
    reveal_strlit("gofile");
    reveal_strlit("google photos");
    reveal_strlit("hdfs");
    reveal_strlit("huaweidrive");
    reveal_strlit("iclouddrive");
    reveal_strlit("imagekit");
    reveal_strlit("internetarchive");
    reveal_strlit("internxt");
    reveal_strlit("jottacloud");
    reveal_strlit("linkbox");
    reveal_strlit("mailru");
    reveal_strlit("mega");
    reveal_strlit("onedrive");
    reveal_strlit("opendrive");
    reveal_strlit("pcloud");
    reveal_strlit("pikpak");
    reveal_strlit("premiumizeme");
    reveal_strlit("protondrive");
    reveal_strlit("putio");
    reveal_strlit("qingstor");
    reveal_strlit("quatrix");
    reveal_strlit("shade");
    reveal_strlit("sharefile");
    reveal_strlit("ulozto");
    reveal_strlit("zoho");
    let k = features_table()[18].0;
    assert(k == "hdfs"@);
    {
    let L = no_put_stream_backends();
    assert forall|q: int| 0 <= q < L.len() implies L[q] != k by {
        if q == 0 {
            assert(L[0].len() != k.len());
        } else if q == 1 {
            assert(L[1].len() != k.len());
        } else if q == 2 {
            assert(L[2].len() != k.len());
        } else if q == 3 {
            assert(L[3].len() != k.len());
        } else if q == 4 {
            assert(L[4].len() != k.len());
        } else if q == 5 {
            assert(L[5].len() != k.len());
        } else if q == 6 {
            assert(L[6].len() != k.len());
        } else if q == 7 {
            assert(L[7].len() != k.len());
        } else if q == 8 {
            assert(L[8].len() != k.len());
        } else if q == 9 {
            assert(L[9].len() != k.len());
        } else if q == 10 {
            assert(L[10].len() != k.len());
        } else if q == 11 {
            assert(L[11].len() != k.len());
        } else if q == 12 {
            assert(L[12].len() != k.len());
        } else if q == 13 {
            assert(L[13][0] != k[0]);
        } else if q == 14 {
            assert(L[14].len() != k.len());
        } else if q == 15 {
            assert(L[15].len() != k.len());
        } else if q == 16 {
            assert(L[16].len() != k.len());
        } else if q == 17 {
            assert(L[17].len() != k.len());
        } else if q == 18 {
            assert(L[18].len() != k.len());
        } else if q == 19 {
            assert(L[19].len() != k.len());
        } else if q == 20 {
            assert(L[20].len() != k.len());
        } else if q == 21 {
            assert(L[21].len() != k.len());
        } else if q == 22 {
            assert(L[22].len() != k.len());
        } else if q == 23 {
            assert(L[23].len() != k.len());
        } else if q == 24 {
            assert(L[24].len() != k.len());
        } else if q == 25 {
            assert(L[25].len() != k.len());
        } else if q == 26 {
            assert(L[26][0] != k[0]);
        }
    }
    assert(!L.contains(k));
    }
    {
    let L = duplicate_files_backends();
    assert forall|q: int| 0 <= q < L.len() implies L[q] != k by {
        if q == 0 {
            assert(L[0].len() != k.len());
        } else if q == 1 {
            assert(L[1].len() != k.len());
        } else if q == 2 {
            assert(L[2].len() != k.len());
        } else if q == 3 {
            assert(L[3][0] != k[0]);
        } else if q == 4 {
            assert(L[4].len() != k.len());
        } else if q == 5 {
            assert(L[5].len() != k.len());
        }
    }
    assert(!L.contains(k));
    }
}

proof fn lemma_entry_19()
    ensures
        features_table()[19].1.put_stream == !no_put_stream_backends().contains(features_table()[19].0),
        features_table()[19].1.duplicate_files == duplicate_files_backends().contains(features_table()[19].0),
{
    reveal_strlit("cloudinary");
    reveal_strlit("drive");
    reveal_strlit("fichier");
    reveal_strlit("filefabric");
    reveal_strlit("filelu");
    reveal_strlit("gofile");
    reveal_strlit("google photos");
    reveal_strlit("hidrive");
    reveal_strlit("huaweidrive");
    reveal_strlit("iclouddrive");
    reveal_strlit("imagekit");
    reveal_strlit("internetarchive");
    reveal_strlit("internxt");
    reveal_strlit("jottacloud");
    reveal_strlit("linkbox");
    reveal_strlit("mailru");
    reveal_strlit("mega");
    reveal_strlit("onedrive");
    reveal_strlit("opendrive");
    reveal_strlit("pcloud");
    reveal_strlit("pikpak");
    reveal_strlit("premiumizeme");
    reveal_strlit("protondrive");
    reveal_strlit("putio");
    reveal_strlit("qingstor");
    reveal_strlit("quatrix");
    reveal_strlit("shade");
    reveal_strlit("sharefile");
    reveal_strlit("ulozto");
    reveal_strlit("zoho");
    let k = features_table()[19].0;
    assert(k == "hidrive"@);
    {
    let L = no_put_stream_backends();
    assert forall|q: int| 0 <= q < L.len() implies L[q] != k by {
        if q == 0 {
            assert(L[0].len() != k.len());
        } else if q == 1 {
            assert(L[1][0] != k[0]);
        } else if q == 2 {
            assert(L[2].len() != k.len());
        } else if q == 3 {
            assert(L[3].len() != k.len());
        } else if q == 4 {
            assert(L[4].len() != k.len());
        } else if q == 5 {
            assert(L[5].len() != k.len());
        } else if q == 6 {
            assert(L[6].len() != k.len());
        } else if q == 7 {
            assert(L[7].len() != k.len());
        } else if q == 8 {
            assert(L[8].len() != k.len());
        } else if q == 9 {
            assert(L[9].len() != k.len());
        } else if q == 10 {
            assert(L[10].len() != k.len());
        } else if q == 11 {
            assert(L[11][0] != k[0]);
        } else if q == 12 {
            assert(L[12].len() != k.len());
        } else if q == 13 {
            assert(L[13].len() != k.len());
        } else if q == 14 {
            assert(L[14].len() != k.len());
        } else if q == 15 {
            assert(L[15].len() != k.len());
        } else if q == 16 {
            assert(L[16].len() != k.len());
        } else if q == 17 {
            assert(L[17].len() != k.len());
        } else if q == 18 {
            assert(L[18].len() != k.len());
        } else if q == 19 {
            assert(L[19].len() != k.len());
        } else if q == 20 {
            assert(L[20].len() != k.len());
        } else if q == 21 {
            assert(L[21].len() != k.len());
        } else if q == 22 {
            assert(L[22][0] != k[0]);
        } else if q == 23 {
            assert(L[23].len() != k.len());
        } else if q == 24 {
            assert(L[24].len() != k.len());
        } else if q == 25 {
            assert(L[25].len() != k.len());
        } else if q == 26 {
            assert(L[26].len() != k.len());
        }
    }
    assert(!L.contains(k));
    }
    {
    let L = duplicate_files_backends();
    assert forall|q: int| 0 <= q < L.len() implies L[q] != k by {
        if q == 0 {
            assert(L[0].len() != k.len());
        } else if q == 1 {
            assert(L[1][0] != k[0]);
        } else if q == 2 {
            assert(L[2].len() != k.len());
        } else if q == 3 {
            assert(L[3].len() != k.len());
        } else if q == 4 {
            assert(L[4].len() != k.len());
        } else if q == 5 {
            assert(L[5].len() != k.len());
        }
    }
    assert(!L.contains(k));
    }
}

proof fn lemma_entry_20()
    ensures
        features_table()[20].1.put_stream == !no_put_stream_backends().contains(features_table()[20].0),
        features_table()[20].1.duplicate_files == duplicate_files_backends().contains(features_table()[20].0),
{
    reveal_strlit("cloudinary");
    reveal_strlit("drive");
    reveal_strlit("fichier");
    reveal_strlit("filefabric");
    reveal_strlit("filelu");
    reveal_strlit("gofile");
    reveal_strlit("google photos");
    reveal_strlit("http");
    reveal_strlit("huaweidrive");
    reveal_strlit("iclouddrive");
    reveal_strlit("imagekit");
    reveal_strlit("internetarchive");
    reveal_strlit("internxt");
    reveal_strlit("jottacloud");
    reveal_strlit("linkbox");
    reveal_strlit("mailru");
    reveal_strlit("mega");
    reveal_strlit("onedrive");
    reveal_strlit("opendrive");
    reveal_strlit("pcloud");
    reveal_strlit("pikpak");
    reveal_strlit("premiumizeme");
    reveal_strlit("protondrive");
    reveal_strlit("putio");
    reveal_strlit("qingstor");
    reveal_strlit("quatrix");
    reveal_strlit("shade");
    reveal_strlit("sharefile");
    reveal_strlit("ulozto");
    reveal_strlit("zoho");
    let k = features_table()[20].0;
    assert(k == "http"@);
    {
    let L = no_put_stream_backends();
    assert forall|q: int| 0 <= q < L.len() implies L[q] != k by {
        if q == 0 {
            assert(L[0].len() != k.len());
        } else if q == 1 {
            assert(L[1].len() != k.len());
        } else if q == 2 {
            assert(L[2].len() != k.len());
        } else if q == 3 {
            assert(L[3].len() != k.len());
        } else if q == 4 {
            assert(L[4].len() != k.len());
        } else if q == 5 {
            assert(L[5].len() != k.len());
        } else if q == 6 {
            assert(L[6].len() != k.len());
        } else if q == 7 {
            assert(L[7].len() != k.len());
        } else if q == 8 {
            assert(L[8].len() != k.len());
        } else if q == 9 {
            assert(L[9].len() != k.len());
        } else if q == 10 {
            assert(L[10].len() != k.len());
        } else if q == 11 {
            assert(L[11].len() != k.len());
        } else if q == 12 {
            assert(L[12].len() != k.len());
        } else if q == 13 {
            assert(L[13][0] != k[0]);
        } else if q == 14 {
            assert(L[14].len() != k.len());
        } else if q == 15 {
            assert(L[15].len() != k.len());
        } else if q == 16 {
            assert(L[16].len() != k.len());
        } else if q == 17 {
            assert(L[17].len() != k.len());
        } else if q == 18 {
            assert(L[18].len() != k.len());
        } else if q == 19 {
            assert(L[19].len() != k.len());
        } else if q == 20 {
            assert(L[20].len() != k.len());
        } else if q == 21 {
            assert(L[21].len() != k.len());
        } else if q == 22 {
            assert(L[22].len() != k.len());
        } else if q == 23 {
            assert(L[23].len() != k.len());
        } else if q == 24 {
            assert(L[24].len() != k.len());
        } else if q == 25 {
            assert(L[25].len() != k.len());
        } else if q == 26 {
            assert(L[26][0] != k[0]);
        }
    }
    assert(!L.contains(k));
    }
    {
    let L = duplicate_files_backends();
    assert forall|q: int| 0 <= q < L.len() implies L[q] != k by {
        if q == 0 {
            assert(L[0].len() != k.len());
        } else if q == 1 {
            assert(L[1].len() != k.len());
        } else if q == 2 {
            assert(L[2].len() != k.len());
        } else if q == 3 {
            assert(L[3][0] != k[0]);
        } else if q == 4 {
            assert(L[4].len() != k.len());
        } else if q == 5 {
            assert(L[5].len() != k.len());
        }
    }
    assert(!L.contains(k));
    }
}

proof fn lemma_entry_21()
    ensures
        features_table()[21].1.put_stream == !no_put_stream_backends().contains(features_table()[21].0),
        features_table()[21].1.duplicate_files == duplicate_files_backends().contains(features_table()[21].0),
{
    reveal_strlit("cloudinary");
    reveal_strlit("drive");
    reveal_strlit("fichier");
    reveal_strlit("filefabric");
    reveal_strlit("filelu");
    reveal_strlit("gofile");
    reveal_strlit("google photos");
    reveal_strlit("huaweidrive");
    reveal_strlit("iclouddrive");
    reveal_strlit("imagekit");
    reveal_strlit("internetarchive");
    reveal_strlit("internxt");
    reveal_strlit("jottacloud");
    reveal_strlit("linkbox");
    reveal_strlit("mailru");
    reveal_strlit("mega");
    reveal_strlit("onedrive");
    reveal_strlit("opendrive");
    reveal_strlit("pcloud");
    reveal_strlit("pikpak");
    reveal_strlit("premiumizeme");
    reveal_strlit("protondrive");
    reveal_strlit("putio");
    reveal_strlit("qingstor");
    reveal_strlit("quatrix");
    reveal_strlit("shade");
    reveal_strlit("sharefile");
    reveal_strlit("ulozto");
    reveal_strlit("zoho");
    let k = features_table()[21].0;
    assert(k == "huaweidrive"@);
    {
    let L = no_put_stream_backends();
    assert(L[5] == k);
    }
    {
    let L = duplicate_files_backends();
    assert forall|q: int| 0 <= q < L.len() implies L[q] != k by {
        if q == 0 {
            assert(L[0].len() != k.len());
        } else if q == 1 {
            assert(L[1].len() != k.len());
        } else if q == 2 {
            assert(L[2].len() != k.len());
        } else if q == 3 {
            assert(L[3].len() != k.len());
        } else if q == 4 {
            assert(L[4].len() != k.len());
        } else if q == 5 {
            assert(L[5].len() != k.len());
        }
    }
    assert(!L.contains(k));
    }
}

proof fn lemma_entry_22()
    ensures
        features_table()[22].1.put_stream == !no_put_stream_backends().contains(features_table()[22].0),
        features_table()[22].1.duplicate_files == duplicate_files_backends().contains(features_table()[22].0),
{
    reveal_strlit("cloudinary");
    reveal_strlit("drive");
    reveal_strlit("fichier");
    reveal_strlit("filefabric");
    reveal_strlit("filelu");
    reveal_strlit("gofile");
    reveal_strlit("google photos");
    reveal_strlit("huaweidrive");
    reveal_strlit("iclouddrive");
    reveal_strlit("imagekit");
    reveal_strlit("internetarchive");
    reveal_strlit("internxt");
    reveal_strlit("jottacloud");
    reveal_strlit("linkbox");
    reveal_strlit("mailru");
    reveal_strlit("mega");
    reveal_strlit("onedrive");
    reveal_strlit("opendrive");
    reveal_strlit("pcloud");
    reveal_strlit("pikpak");
    reveal_strlit("premiumizeme");
    reveal_strlit("protondrive");
    reveal_strlit("putio");
    reveal_strlit("qingstor");
    reveal_strlit("quatrix");
    reveal_strlit("shade");
    reveal_strlit("sharefile");
    reveal_strlit("ulozto");
    reveal_strlit("zoho");
    let k = features_table()[22].0;
    assert(k == "iclouddrive"@);
    {
    let L = no_put_stream_backends();
    assert(L[6] == k);
    }
    {
    let L = duplicate_files_backends();
    assert forall|q: int| 0 <= q < L.len() implies L[q] != k by {
        if q == 0 {
            assert(L[0].len() != k.len());
        } else if q == 1 {
            assert(L[1].len() != k.len());
        } else if q == 2 {
            assert(L[2].len() != k.len());
        } else if q == 3 {
            assert(L[3].len() != k.len());
        } else if q == 4 {
            assert(L[4].len() != k.len());
        } else if q == 5 {
            assert(L[5].len() != k.len());
        }
    }
    assert(!L.contains(k));
    }
}

proof fn lemma_entry_23()
    ensures
        features_table()[23].1.put_stream == !no_put_stream_backends().contains(features_table()[23].0),
        features_table()[23].1.duplicate_files == duplicate_files_backends().contains(features_table()[23].0),
{
    reveal_strlit("cloudinary");
    reveal_strlit("drive");
    reveal_strlit("fichier");
    reveal_strlit("filefabric");
    reveal_strlit("filelu");
    reveal_strlit("gofile");
    reveal_strlit("google photos");
    reveal_strlit("huaweidrive");
    reveal_strlit("iclouddrive");
    reveal_strlit("imagekit");
    reveal_strlit("internetarchive");
    reveal_strlit("internxt");
    reveal_strlit("jottacloud");
    reveal_strlit("linkbox");
    reveal_strlit("mailru");
    reveal_strlit("mega");
    reveal_strlit("onedrive");
    reveal_strlit("opendrive");
    reveal_strlit("pcloud");
    reveal_strlit("pikpak");
    reveal_strlit("premiumizeme");
    reveal_strlit("protondrive");
    reveal_strlit("putio");
    reveal_strlit("qingstor");
    reveal_strlit("quatrix");
    reveal_strlit("shade");
    reveal_strlit("sharefile");
    reveal_strlit("ulozto");
    reveal_strlit("zoho");
    let k = features_table()[23].0;
    assert(k == "imagekit"@);
    {
    let L = no_put_stream_backends();
    assert(L[7] == k);
    }
    {
    let L = duplicate_files_backends();
    assert forall|q: int| 0 <= q < L.len() implies L[q] != k by {
        if q == 0 {
            assert(L[0].len() != k.len());
        } else if q == 1 {
            assert(L[1].len() != k.len());
        } else if q == 2 {
            assert(L[2].len() != k.len());
        } else if q == 3 {
            assert(L[3].len() != k.len());
        } else if q == 4 {
            assert(L[4].len() != k.len());
        } else if q == 5 {
            assert(L[5].len() != k.len());
        }
    }
    assert(!L.contains(k));
    }
}

proof fn lemma_entry_24()
    ensures
        features_table()[24].1.put_stream == !no_put_stream_backends().contains(features_table()[24].0),
        features_table()[24].1.duplicate_files == duplicate_files_backends().contains(features_table()[24].0),
{
    reveal_strlit("cloudinary");
    reveal_strlit("drive");
    reveal_strlit("fichier");
    reveal_strlit("filefabric");
    reveal_strlit("filelu");
    reveal_strlit("gofile");
    reveal_strlit("google photos");
    reveal_strlit("huaweidrive");
    reveal_strlit("iclouddrive");
    reveal_strlit("imagekit");
    reveal_strlit("internetarchive");
    reveal_strlit("internxt");
    reveal_strlit("jottacloud");
    reveal_strlit("linkbox");
    reveal_strlit("mailru");
    reveal_strlit("mega");
    reveal_strlit("onedrive");
    reveal_strlit("opendrive");
    reveal_strlit("pcloud");
    reveal_strlit("pikpak");
    reveal_strlit("premiumizeme");
    reveal_strlit("protondrive");
    reveal_strlit("putio");
    reveal_strlit("qingstor");
    reveal_strlit("quatrix");
    reveal_strlit("shade");
    reveal_strlit("sharefile");
    reveal_strlit("ulozto");
    reveal_strlit("zoho");
    let k = features_table()[24].0;
    assert(k == "internetarchive"@);
    {
    let L = no_put_stream_backends();
    assert(L[8] == k);
    }
    {
    let L = duplicate_files_backends();
    assert forall|q: int| 0 <= q < L.len() implies L[q] != k by {
        if q == 0 {
            assert(L[0].len() != k.len());
        } else if q == 1 {
            assert(L[1].len() != k.len());
        } else if q == 2 {
            assert(L[2].len() != k.len());
        } else if q == 3 {
            assert(L[3].len() != k.len());
        } else if q == 4 {
            assert(L[4].len() != k.len());
        } else if q == 5 {
            assert(L[5].len() != k.len());
        }
    }
    assert(!L.contains(k));
    }
}

proof fn lemma_entry_25()
    ensures
        features_table()[25].1.put_stream == !no_put_stream_backends().contains(features_table()[25].0),
        features_table()[25].1.duplicate_files == duplicate_files_backends().contains(features_table()[25].0),
{
    reveal_strlit("cloudinary");
    reveal_strlit("drive");
    reveal_strlit("fichier");
    reveal_strlit("filefabric");
    reveal_strlit("filelu");
    reveal_strlit("gofile");
    reveal_strlit("google photos");
    reveal_strlit("huaweidrive");
    reveal_strlit("iclouddrive");
    reveal_strlit("imagekit");
    reveal_strlit("internetarchive");
    reveal_strlit("internxt");
    reveal_strlit("jottacloud");
    reveal_strlit("linkbox");
    reveal_strlit("mailru");
    reveal_strlit("mega");
    reveal_strlit("onedrive");
    reveal_strlit("opendrive");
    reveal_strlit("pcloud");
    reveal_strlit("pikpak");
    reveal_strlit("premiumizeme");
    reveal_strlit("protondrive");
    reveal_strlit("putio");
    reveal_strlit("qingstor");
    reveal_strlit("quatrix");
    reveal_strlit("shade");
    reveal_strlit("sharefile");
    reveal_strlit("ulozto");
    reveal_strlit("zoho");
    let k = features_table()[25].0;
    assert(k == "internxt"@);
    {
    let L = no_put_stream_backends();
    assert(L[9] == k);
    }
    {
    let L = duplicate_files_backends();
    assert forall|q: int| 0 <= q < L.len() implies L[q] != k by {
        if q == 0 {
            assert(L[0].len() != k.len());
        } else if q == 1 {
            assert(L[1].len() != k.len());
        } else if q == 2 {
            assert(L[2].len() != k.len());
        } else if q == 3 {
            assert(L[3].len() != k.len());
        } else if q == 4 {
            assert(L[4].len() != k.len());
        } else if q == 5 {
            assert(L[5].len() != k.len());
        }
    }
    assert(!L.contains(k));
    }
}

proof fn lemma_entry_26()
    ensures
        features_table()[26].1.put_stream == !no_put_stream_backends().contains(features_table()[26].0),
        features_table()[26].1.duplicate_files == duplicate_files_backends().contains(features_table()[26].0),
{
    reveal_strlit("cloudinary");
    reveal_strlit("drive");
    reveal_strlit("fichier");
    reveal_strlit("filefabric");
    reveal_strlit("filelu");
    reveal_strlit("gofile");
    reveal_strlit("google photos");
    reveal_strlit("huaweidrive");
    reveal_strlit("iclouddrive");
    reveal_strlit("imagekit");
    reveal_strlit("internetarchive");
    reveal_strlit("internxt");
    reveal_strlit("jottacloud");
    reveal_strlit("linkbox");
    reveal_strlit("mailru");
    reveal_strlit("mega");
    reveal_strlit("onedrive");
    reveal_strlit("opendrive");
    reveal_strlit("pcloud");
    reveal_strlit("pikpak");
    reveal_strlit("premiumizeme");
    reveal_strlit("protondrive");
    reveal_strlit("putio");
    reveal_strlit("qingstor");
    reveal_strlit("quatrix");
    reveal_strlit("shade");
    reveal_strlit("sharefile");
    reveal_strlit("ulozto");
    reveal_strlit("zoho");
    let k = features_table()[26].0;
    assert(k == "jottacloud"@);
    {
    let L = no_put_stream_backends();
    assert(L[10] == k);
    }
    {
    let L = duplicate_files_backends();
    assert forall|q: int| 0 <= q < L.len() implies L[q] != k by {
        if q == 0 {
            assert(L[0].len() != k.len());
        } else if q == 1 {
            assert(L[1].len() != k.len());
        } else if q == 2 {
            assert(L[2].len() != k.len());
        } else if q == 3 {
            assert(L[3].len() != k.len());
        } else if q == 4 {
            assert(L[4].len() != k.len());
        } else if q == 5 {
            assert(L[5].len() != k.len());
        }
    }
    assert(!L.contains(k));
    }
}

proof fn lemma_entry_27()
    ensures
        features_table()[27].1.put_stream == !no_put_stream_backends().contains(features_table()[27].0),
        features_table()[27].1.duplicate_files == duplicate_files_backends().contains(features_table()[27].0),
{
    reveal_strlit("cloudinary");
    reveal_strlit("drive");
    reveal_strlit("fichier");
    reveal_strlit("filefabric");
    reveal_strlit("filelu");
    reveal_strlit("gofile");
    reveal_strlit("google photos");
    reveal_strlit("huaweidrive");
    reveal_strlit("iclouddrive");
    reveal_strlit("imagekit");
    reveal_strlit("internetarchive");
    reveal_strlit("internxt");
    reveal_strlit("jottacloud");
    reveal_strlit("koofr");
    reveal_strlit("linkbox");
    reveal_strlit("mailru");
    reveal_strlit("mega");
    reveal_strlit("onedrive");
    reveal_strlit("opendrive");
    reveal_strlit("pcloud");
    reveal_strlit("pikpak");
    reveal_strlit("premiumizeme");
    reveal_strlit("protondrive");
    reveal_strlit("putio");
    reveal_strlit("qingstor");
    reveal_strlit("quatrix");
    reveal_strlit("shade");
    reveal_strlit("sharefile");
    reveal_strlit("ulozto");
    reveal_strlit("zoho");
    let k = features_table()[27].0;
    assert(k == "koofr"@);
    {
    let L = no_put_stream_backends();
    assert forall|q: int| 0 <= q < L.len() implies L[q] != k by {
        if q == 0 {
            assert(L[0].len() != k.len());
        } else if q == 1 {
            assert(L[1].len() != k.len());
        } else if q == 2 {
            assert(L[2].len() != k.len());
        } else if q == 3 {
            assert(L[3].len() != k.len());
        } else if q == 4 {
            assert(L[4].len() != k.len());
        } else if q == 5 {
            assert(L[5].len() != k.len());
        } else if q == 6 {
            assert(L[6].len() != k.len());
        } else if q == 7 {
            assert(L[7].len() != k.len());
        } else if q == 8 {
            assert(L[8].len() != k.len());
        } else if q == 9 {
            assert(L[9].len() != k.len());
        } else if q == 10 {
            assert(L[10].len() != k.len());
        } else if q == 11 {
            assert(L[11].len() != k.len());
        } else if q == 12 {
            assert(L[12].len() != k.len());
        } else if q == 13 {
            assert(L[13].len() != k.len());
        } else if q == 14 {
            assert(L[14].len() != k.len());
        } else if q == 15 {
            assert(L[15].len() != k.len());
        } else if q == 16 {
            assert(L[16].len() != k.len());
        } else if q == 17 {
            assert(L[17].len() != k.len());
        } else if q == 18 {
            assert(L[18].len() != k.len());
        } else if q == 19 {
            assert(L[19].len() != k.len());
        } else if q == 20 {
            assert(L[20][0] != k[0]);
        } else if q == 21 {
            assert(L[21].len() != k.len());
        } else if q == 22 {
            assert(L[22].len() != k.len());
        } else if q == 23 {
            assert(L[23][0] != k[0]);
        } else if q == 24 {
            assert(L[24].len() != k.len());
        } else if q == 25 {
            assert(L[25].len() != k.len());
        } else if q == 26 {
            assert(L[26].len() != k.len());
        }
    }
    assert(!L.contains(k));
    }
    {
    let L = duplicate_files_backends();
    assert forall|q: int| 0 <= q < L.len() implies L[q] != k by {
        if q == 0 {
            assert(L[0][0] != k[0]);
        } else if q == 1 {
            assert(L[1].len() != k.len());
        } else if q == 2 {
            assert(L[2].len() != k.len());
        } else if q == 3 {
            assert(L[3].len() != k.len());
        } else if q == 4 {
            assert(L[4][0] != k[0]);
        } else if q == 5 {
            assert(L[5].len() != k.len());
        }
    }
    assert(!L.contains(k));
    }
}

proof fn lemma_entry_28()
    ensures
        features_table()[28].1.put_stream == !no_put_stream_backends().contains(features_table()[28].0),
        features_table()[28].1.duplicate_files == duplicate_files_backends().contains(features_table()[28].0),
{
    reveal_strlit("cloudinary");
    reveal_strlit("drive");
    reveal_strlit("fichier");
    reveal_strlit("filefabric");
    reveal_strlit("filelu");
    reveal_strlit("gofile");
    reveal_strlit("google photos");
    reveal_strlit("huaweidrive");
    reveal_strlit("iclouddrive");
    reveal_strlit("imagekit");
    reveal_strlit("internetarchive");
    reveal_strlit("internxt");
    reveal_strlit("jottacloud");
    reveal_strlit("linkbox");
    reveal_strlit("mailru");
    reveal_strlit("mega");
    reveal_strlit("onedrive");
    reveal_strlit("opendrive");
    reveal_strlit("pcloud");
    reveal_strlit("pikpak");
    reveal_strlit("premiumizeme");
    reveal_strlit("protondrive");
    reveal_strlit("putio");
    reveal_strlit("qingstor");
    reveal_strlit("quatrix");
    reveal_strlit("shade");
    reveal_strlit("sharefile");
    reveal_strlit("ulozto");
    reveal_strlit("zoho");
    let k = features_table()[28].0;
    assert(k == "linkbox"@);
    {
    let L = no_put_stream_backends();
    assert(L[11] == k);
    }
    {
    let L = duplicate_files_backends();
    assert forall|q: int| 0 <= q < L.len() implies L[q] != k by {
        if q == 0 {
            assert(L[0].len() != k.len());
        } else if q == 1 {
            assert(L[1][0] != k[0]);
        } else if q == 2 {
            assert(L[2].len() != k.len());
        } else if q == 3 {
            assert(L[3].len() != k.len());
        } else if q == 4 {
            assert(L[4].len() != k.len());
        } else if q == 5 {
            assert(L[5].len() != k.len());
        }
    }
    assert(!L.contains(k));
    }
}

proof fn lemma_entry_29()
    ensures
        features_table()[29].1.put_stream == !no_put_stream_backends().contains(features_table()[29].0),
        features_table()[29].1.duplicate_files == duplicate_files_backends().contains(features_table()[29].0),
{
    reveal_strlit("cloudinary");
    reveal_strlit("drive");
    reveal_strlit("fichier");
    reveal_strlit("filefabric");
    reveal_strlit("filelu");
    reveal_strlit("gofile");
    reveal_strlit("google photos");
    reveal_strlit("huaweidrive");
    reveal_strlit("iclouddrive");
    reveal_strlit("imagekit");
    reveal_strlit("internetarchive");
    reveal_strlit("internxt");
    reveal_strlit("jottacloud");
    reveal_strlit("linkbox");
    reveal_strlit("mailru");
    reveal_strlit("mega");
    reveal_strlit("onedrive");
    reveal_strlit("opendrive");
    reveal_strlit("pcloud");
    reveal_strlit("pikpak");
    reveal_strlit("premiumizeme");
    reveal_strlit("protondrive");
    reveal_strlit("putio");
    reveal_strlit("qingstor");
    reveal_strlit("quatrix");
    reveal_strlit("shade");
    reveal_strlit("sharefile");
    reveal_strlit("ulozto");
    reveal_strlit("zoho");
    let k = features_table()[29].0;
    assert(k == "mailru"@);
    {
    let L = no_put_stream_backends();
    assert(L[12] == k);
    }
    {
    let L = duplicate_files_backends();
    assert forall|q: int| 0 <= q < L.len() implies L[q] != k by {
        if q == 0 {
            assert(L[0].len() != k.len());
        } else if q == 1 {
            assert(L[1].len() != k.len());
        } else if q == 2 {
            assert(L[2][0] != k[0]);
        } else if q == 3 {
            assert(L[3].len() != k.len());
        } else if q == 4 {
            assert(L[4].len() != k.len());
        } else if q == 5 {
            assert(L[5][0] != k[0]);
        }
    }
    assert(!L.contains(k));
    }
}

proof fn lemma_entry_30()
    ensures
        features_table()[30].1.put_stream == !no_put_stream_backends().contains(features_table()[30].0),
        features_table()[30].1.duplicate_files == duplicate_files_backends().contains(features_table()[30].0),
{
    reveal_strlit("cloudinary");
    reveal_strlit("drive");
    reveal_strlit("fichier");
    reveal_strlit("filefabric");
    reveal_strlit("filelu");
    reveal_strlit("gofile");
    reveal_strlit("google photos");
    reveal_strlit("huaweidrive");
    reveal_strlit("iclouddrive");
    reveal_strlit("imagekit");
    reveal_strlit("internetarchive");
    reveal_strlit("internxt");
    reveal_strlit("jottacloud");
    reveal_strlit("linkbox");
    reveal_strlit("mailru");
    reveal_strlit("mega");
    reveal_strlit("onedrive");
    reveal_strlit("opendrive");
    reveal_strlit("pcloud");
    reveal_strlit("pikpak");
    reveal_strlit("premiumizeme");
    reveal_strlit("protondrive");
    reveal_strlit("putio");
    reveal_strlit("qingstor");
    reveal_strlit("quatrix");
    reveal_strlit("shade");
    reveal_strlit("sharefile");
    reveal_strlit("ulozto");
    reveal_strlit("zoho");
    let k = features_table()[30].0;
    assert(k == "mega"@);
    {
    let L = no_put_stream_backends();
    assert(L[13] == k);
    }
    {
    let L = duplicate_files_backends();
    assert(L[3] == k);
    }
}

proof fn lemma_entry_31()
    ensures
        features_table()[31].1.put_stream == !no_put_stream_backends().contains(features_table()[31].0),
        features_table()[31].1.duplicate_files == duplicate_files_backends().contains(features_table()[31].0),
{
    reveal_strlit("cloudinary");
    reveal_strlit("drive");
    reveal_strlit("fichier");
    reveal_strlit("filefabric");
    reveal_strlit("filelu");
    reveal_strlit("gofile");
    reveal_strlit("google photos");
    reveal_strlit("huaweidrive");
    reveal_strlit("iclouddrive");
    reveal_strlit("imagekit");
    reveal_strlit("internetarchive");
    reveal_strlit("internxt");
    reveal_strlit("jottacloud");
    reveal_strlit("linkbox");
    reveal_strlit("mailru");
    reveal_strlit("mega");
    reveal_strlit("netstorage");
    reveal_strlit("onedrive");
    reveal_strlit("opendrive");
    reveal_strlit("pcloud");
    reveal_strlit("pikpak");
    reveal_strlit("premiumizeme");
    reveal_strlit("protondrive");
    reveal_strlit("putio");
    reveal_strlit("qingstor");
    reveal_strlit("quatrix");
    reveal_strlit("shade");
    reveal_strlit("sharefile");
    reveal_strlit("ulozto");
    reveal_strlit("zoho");
    let k = features_table()[31].0;
    assert(k == "netstorage"@);
    {
    let L = no_put_stream_backends();
    assert forall|q: int| 0 <= q < L.len() implies L[q] != k by {
        if q == 0 {
            assert(L[0][0] != k[0]);
        } else if q == 1 {
            assert(L[1].len() != k.len());
        } else if q == 2 {
            assert(L[2][0] != k[0]);
        } else if q == 3 {
            assert(L[3].len() != k.len());
        } else if q == 4 {
            assert(L[4].len() != k.len());
        } else if q == 5 {
            assert(L[5].len() != k.len());
        } else if q == 6 {
            assert(L[6].len() != k.len());
        } else if q == 7 {
            assert(L[7].len() != k.len());
        } else if q == 8 {
            assert(L[8].len() != k.len());
        } else if q == 9 {
            assert(L[9].len() != k.len());
        } else if q == 10 {
            assert(L[10][0] != k[0]);
        } else if q == 11 {
            assert(L[11].len() != k.len());
        } else if q == 12 {
            assert(L[12].len() != k.len());
        } else if q == 13 {
            assert(L[13].len() != k.len());
        } else if q == 14 {
            assert(L[14].len() != k.len());
        } else if q == 15 {
            assert(L[15].len() != k.len());
        } else if q == 16 {
            assert(L[16].len() != k.len());
        } else if q == 17 {
            assert(L[17].len() != k.len());
        } else if q == 18 {
            assert(L[18].len() != k.len());
        } else if q == 19 {
            assert(L[19].len() != k.len());
        } else if q == 20 {
            assert(L[20].len() != k.len());
        } else if q == 21 {
            assert(L[21].len() != k.len());
        } else if q == 22 {
            assert(L[22].len() != k.len());
        } else if q == 23 {
            assert(L[23].len() != k.len());
        } else if q == 24 {
            assert(L[24].len() != k.len());
        } else if q == 25 {
            assert(L[25].len() != k.len());
        } else if q == 26 {
            assert(L[26].len() != k.len());
        }
    }
    assert(!L.contains(k));
    }
    {
    let L = duplicate_files_backends();
    assert forall|q: int| 0 <= q < L.len() implies L[q] != k by {
        if q == 0 {
            assert(L[0].len() != k.len());
        } else if q == 1 {
            assert(L[1].len() != k.len());
        } else if q == 2 {
            assert(L[2].len() != k.len());
        } else if q == 3 {
            assert(L[3].len() != k.len());
        } else if q == 4 {
            assert(L[4].len() != k.len());
        } else if q == 5 {
            assert(L[5].len() != k.len());
        }
    }
    assert(!L.contains(k));
    }
}

proof fn lemma_entry_32()
    ensures
        features_table()[32].1.put_stream == !no_put_stream_backends().contains(features_table()[32].0),
        features_table()[32].1.duplicate_files == duplicate_files_backends().contains(features_table()[32].0),
{
    reveal_strlit("cloudinary");
    reveal_strlit("drive");
    reveal_strlit("fichier");
    reveal_strlit("filefabric");
    reveal_strlit("filelu");
    reveal_strlit("gofile");
    reveal_strlit("google photos");
    reveal_strlit("huaweidrive");
    reveal_strlit("iclouddrive");
    reveal_strlit("imagekit");
    reveal_strlit("internetarchive");
    reveal_strlit("internxt");
    reveal_strlit("jottacloud");
    reveal_strlit("linkbox");
    reveal_strlit("mailru");
    reveal_strlit("mega");
    reveal_strlit("onedrive");
    reveal_strlit("opendrive");
    reveal_strlit("pcloud");
    reveal_strlit("pikpak");
    reveal_strlit("premiumizeme");
    reveal_strlit("protondrive");
    reveal_strlit("putio");
    reveal_strlit("qingstor");
    reveal_strlit("quatrix");
    reveal_strlit("shade");
    reveal_strlit("sharefile");
    reveal_strlit("ulozto");
    reveal_strlit("zoho");
    let k = features_table()[32].0;
    assert(k == "onedrive"@);
    {
    let L = no_put_stream_backends();
    assert(L[14] == k);
    }
    {
    let L = duplicate_files_backends();
    assert forall|q: int| 0 <= q < L.len() implies L[q] != k by {
        if q == 0 {
            assert(L[0].len() != k.len());
        } else if q == 1 {
            assert(L[1].len() != k.len());
        } else if q == 2 {
            assert(L[2].len() != k.len());
        } else if q == 3 {
            assert(L[3].len() != k.len());
        } else if q == 4 {
            assert(L[4].len() != k.len());
        } else if q == 5 {
            assert(L[5].len() != k.len());
        }
    }
    assert(!L.contains(k));
    }
}

proof fn lemma_entry_33()
    ensures
        features_table()[33].1.put_stream == !no_put_stream_backends().contains(features_table()[33].0),
        features_table()[33].1.duplicate_files == duplicate_files_backends().contains(features_table()[33].0),
{
    reveal_strlit("cloudinary");
    reveal_strlit("drive");
    reveal_strlit("fichier");
    reveal_strlit("filefabric");
    reveal_strlit("filelu");
    reveal_strlit("gofile");
    reveal_strlit("google photos");
    reveal_strlit("huaweidrive");
    reveal_strlit("iclouddrive");
    reveal_strlit("imagekit");
    reveal_strlit("internetarchive");
    reveal_strlit("internxt");
    reveal_strlit("jottacloud");
    reveal_strlit("linkbox");
    reveal_strlit("mailru");
    reveal_strlit("mega");
    reveal_strlit("onedrive");
    reveal_strlit("opendrive");
    reveal_strlit("pcloud");
    reveal_strlit("pikpak");
    reveal_strlit("premiumizeme");
    reveal_strlit("protondrive");
    reveal_strlit("putio");
    reveal_strlit("qingstor");
    reveal_strlit("quatrix");
    reveal_strlit("shade");
    reveal_strlit("sharefile");
    reveal_strlit("ulozto");
    reveal_strlit("zoho");
    let k = features_table()[33].0;
    assert(k == "opendrive"@);
    {
    let L = no_put_stream_backends();
    assert(L[15] == k);
    }
    {
    let L = duplicate_files_backends();
    assert forall|q: int| 0 <= q < L.len() implies L[q] != k by {
        if q == 0 {
            assert(L[0].len() != k.len());
        } else if q == 1 {
            assert(L[1].len() != k.len());
        } else if q == 2 {
            assert(L[2].len() != k.len());
        } else if q == 3 {
            assert(L[3].len() != k.len());
        } else if q == 4 {
            assert(L[4].len() != k.len());
        } else if q == 5 {
            assert(L[5].len() != k.len());
        }
    }
    assert(!L.contains(k));
    }
}

proof fn lemma_entry_34()
    ensures
        features_table()[34].1.put_stream == !no_put_stream_backends().contains(features_table()[34].0),
        features_table()[34].1.duplicate_files == duplicate_files_backends().contains(features_table()[34].0),
{
    reveal_strlit("cloudinary");
    reveal_strlit("drive");
    reveal_strlit("fichier");
    reveal_strlit("filefabric");
    reveal_strlit("filelu");
    reveal_strlit("gofile");
    reveal_strlit("google photos");
    reveal_strlit("huaweidrive");
    reveal_strlit("iclouddrive");
    reveal_strlit("imagekit");
    reveal_strlit("internetarchive");
    reveal_strlit("internxt");
    reveal_strlit("jottacloud");
    reveal_strlit("linkbox");
    reveal_strlit("mailru");
    reveal_strlit("mega");
    reveal_strlit("onedrive");
    reveal_strlit("opendrive");
    reveal_strlit("oracleobjectstorage");
    reveal_strlit("pcloud");
    reveal_strlit("pikpak");
    reveal_strlit("premiumizeme");
    reveal_strlit("protondrive");
    reveal_strlit("putio");
    reveal_strlit("qingstor");
    reveal_strlit("quatrix");
    reveal_strlit("shade");
    reveal_strlit("sharefile");
    reveal_strlit("ulozto");
    reveal_strlit("zoho");
    let k = features_table()[34].0;
    assert(k == "oracleobjectstorage"@);
    {
    let L = no_put_stream_backends();
    assert forall|q: int| 0 <= q < L.len() implies L[q] != k by {
        if q == 0 {
            assert(L[0].len() != k.len());
        } else if q == 1 {
            assert(L[1].len() != k.len());
        } else if q == 2 {
            assert(L[2].len() != k.len());
        } else if q == 3 {
            assert(L[3].len() != k.len());
        } else if q == 4 {
            assert(L[4].len() != k.len());
        } else if q == 5 {
            assert(L[5].len() != k.len());
        } else if q == 6 {
            assert(L[6].len() != k.len());
        } else if q == 7 {
            assert(L[7].len() != k.len());
        } else if q == 8 {
            assert(L[8].len() != k.len());
        } else if q == 9 {
            assert(L[9].len() != k.len());
        } else if q == 10 {
            assert(L[10].len() != k.len());
        } else if q == 11 {
            assert(L[11].len() != k.len());
        } else if q == 12 {
            assert(L[12].len() != k.len());
        } else if q == 13 {
            assert(L[13].len() != k.len());
        } else if q == 14 {
            assert(L[14].len() != k.len());
        } else if q == 15 {
            assert(L[15].len() != k.len());
        } else if q == 16 {
            assert(L[16].len() != k.len());
        } else if q == 17 {
            assert(L[17].len() != k.len());
        } else if q == 18 {
            assert(L[18].len() != k.len());
        } else if q == 19 {
            assert(L[19].len() != k.len());
        } else if q == 20 {
            assert(L[20].len() != k.len());
        } else if q == 21 {
            assert(L[21].len() != k.len());
        } else if q == 22 {
            assert(L[22].len() != k.len());
        } else if q == 23 {
            assert(L[23].len() != k.len());
        } else if q == 24 {
            assert(L[24].len() != k.len());
        } else if q == 25 {
            assert(L[25].len() != k.len());
        } else if q == 26 {
            assert(L[26].len() != k.len());
        }
    }
    assert(!L.contains(k));
    }
    {
    let L = duplicate_files_backends();
    assert forall|q: int| 0 <= q < L.len() implies L[q] != k by {
        if q == 0 {
            assert(L[0].len() != k.len());
        } else if q == 1 {
            assert(L[1].len() != k.len());
        } else if q == 2 {
            assert(L[2].len() != k.len());
        } else if q == 3 {
            assert(L[3].len() != k.len());
        } else if q == 4 {
            assert(L[4].len() != k.len());
        } else if q == 5 {
            assert(L[5].len() != k.len());
        }
    }
    assert(!L.contains(k));
    }
}

proof fn lemma_entry_35()
    ensures
        features_table()[35].1.put_stream == !no_put_stream_backends().contains(features_table()[35].0),
        features_table()[35].1.duplicate_files == duplicate_files_backends().contains(features_table()[35].0),
{
    reveal_strlit("cloudinary");
    reveal_strlit("drive");
    reveal_strlit("fichier");
    reveal_strlit("filefabric");
    reveal_strlit("filelu");
    reveal_strlit("gofile");
    reveal_strlit("google photos");
    reveal_strlit("huaweidrive");
    reveal_strlit("iclouddrive");
    reveal_strlit("imagekit");
    reveal_strlit("internetarchive");
    reveal_strlit("internxt");
    reveal_strlit("jottacloud");
    reveal_strlit("linkbox");
    reveal_strlit("mailru");
    reveal_strlit("mega");
    reveal_strlit("onedrive");
    reveal_strlit("opendrive");
    reveal_strlit("pcloud");
    reveal_strlit("pikpak");
    reveal_strlit("premiumizeme");
    reveal_strlit("protondrive");
    reveal_strlit("putio");
    reveal_strlit("qingstor");
    reveal_strlit("quatrix");
    reveal_strlit("shade");
    reveal_strlit("sharefile");
    reveal_strlit("ulozto");
    reveal_strlit("zoho");
    let k = features_table()[35].0;
    assert(k == "pcloud"@);
    {
    let L = no_put_stream_backends();
    assert(L[16] == k);
    }
    {
    let L = duplicate_files_backends();
    assert forall|q: int| 0 <= q < L.len() implies L[q] != k by {
        if q == 0 {
            assert(L[0].len() != k.len());
        } else if q == 1 {
            assert(L[1].len() != k.len());
        } else if q == 2 {
            assert(L[2][0] != k[0]);
        } else if q == 3 {
            assert(L[3].len() != k.len());
        } else if q == 4 {
            assert(L[4].len() != k.len());
        } else if q == 5 {
            assert(L[5][0] != k[0]);
        }
    }
    assert(!L.contains(k));
    }
}

proof fn lemma_entry_36()
    ensures
        features_table()[36].1.put_stream == !no_put_stream_backends().contains(features_table()[36].0),
        features_table()[36].1.duplicate_files == duplicate_files_backends().contains(features_table()[36].0),
{
    reveal_strlit("cloudinary");
    reveal_strlit("drive");
    reveal_strlit("fichier");
    reveal_strlit("filefabric");
    reveal_strlit("filelu");
    reveal_strlit("gofile");
    reveal_strlit("google photos");
    reveal_strlit("huaweidrive");
    reveal_strlit("iclouddrive");
    reveal_strlit("imagekit");
    reveal_strlit("internetarchive");
    reveal_strlit("internxt");
    reveal_strlit("jottacloud");
    reveal_strlit("linkbox");
    reveal_strlit("mailru");
    reveal_strlit("mega");
    reveal_strlit("onedrive");
    reveal_strlit("opendrive");
    reveal_strlit("pcloud");
    reveal_strlit("pikpak");
    reveal_strlit("premiumizeme");
    reveal_strlit("protondrive");
    reveal_strlit("putio");
    reveal_strlit("qingstor");
    reveal_strlit("quatrix");
    reveal_strlit("shade");
    reveal_strlit("sharefile");
    reveal_strlit("ulozto");
    reveal_strlit("zoho");
    let k = features_table()[36].0;
    assert(k == "pikpak"@);
    {
    let L = no_put_stream_backends();
    assert(L[17] == k);
    }
    {
    let L = duplicate_files_backends();
    assert forall|q: int| 0 <= q < L.len() implies L[q] != k by {
        if q == 0 {
            assert(L[0].len() != k.len());
        } else if q == 1 {
            assert(L[1].len() != k.len());
        } else if q == 2 {
            assert(L[2][0] != k[0]);
        } else if q == 3 {
            assert(L[3].len() != k.len());
        } else if q == 4 {
            assert(L[4].len() != k.len());
        } else if q == 5 {
            assert(L[5][0] != k[0]);
        }
    }
    assert(!L.contains(k));
    }
}

proof fn lemma_entry_37()
    ensures
        features_table()[37].1.put_stream == !no_put_stream_backends().contains(features_table()[37].0),
        features_table()[37].1.duplicate_files == duplicate_files_backends().contains(features_table()[37].0),
{
    reveal_strlit("cloudinary");
    reveal_strlit("drive");
    reveal_strlit("fichier");
    reveal_strlit("filefabric");
    reveal_strlit("filelu");
    reveal_strlit("gofile");
    reveal_strlit("google photos");
    reveal_strlit("huaweidrive");
    reveal_strlit("iclouddrive");
    reveal_strlit("imagekit");
    reveal_strlit("internetarchive");
    reveal_strlit("internxt");
    reveal_strlit("jottacloud");
    reveal_strlit("linkbox");
    reveal_strlit("mailru");
    reveal_strlit("mega");
    reveal_strlit("onedrive");
    reveal_strlit("opendrive");
    reveal_strlit("pcloud");
    reveal_strlit("pikpak");
    reveal_strlit("pixeldrain");
    reveal_strlit("premiumizeme");
    reveal_strlit("protondrive");
    reveal_strlit("putio");
    reveal_strlit("qingstor");
    reveal_strlit("quatrix");
    reveal_strlit("shade");
    reveal_strlit("sharefile");
    reveal_strlit("ulozto");
    reveal_strlit("zoho");
    let k = features_table()[37].0;
    assert(k == "pixeldrain"@);
    {
    let L = no_put_stream_backends();
    assert forall|q: int| 0 <= q < L.len() implies L[q] != k by {
        if q == 0 {
            assert(L[0][0] != k[0]);
        } else if q == 1 {
            assert(L[1].len() != k.len());
        } else if q == 2 {
            assert(L[2][0] != k[0]);
        } else if q == 3 {
            assert(L[3].len() != k.len());
        } else if q == 4 {
            assert(L[4].len() != k.len());
        } else if q == 5 {
            assert(L[5].len() != k.len());
        } else if q == 6 {
            assert(L[6].len() != k.len());
        } else if q == 7 {
            assert(L[7].len() != k.len());
        } else if q == 8 {
            assert(L[8].len() != k.len());
        } else if q == 9 {
            assert(L[9].len() != k.len());
        } else if q == 10 {
            assert(L[10][0] != k[0]);
        } else if q == 11 {
            assert(L[11].len() != k.len());
        } else if q == 12 {
            assert(L[12].len() != k.len());
        } else if q == 13 {
            assert(L[13].len() != k.len());
        } else if q == 14 {
            assert(L[14].len() != k.len());
        } else if q == 15 {
            assert(L[15].len() != k.len());
        } else if q == 16 {
            assert(L[16].len() != k.len());
        } else if q == 17 {
            assert(L[17].len() != k.len());
        } else if q == 18 {
            assert(L[18].len() != k.len());
        } else if q == 19 {
            assert(L[19].len() != k.len());
        } else if q == 20 {
            assert(L[20].len() != k.len());
        } else if q == 21 {
            assert(L[21].len() != k.len());
        } else if q == 22 {
            assert(L[22].len() != k.len());
        } else if q == 23 {
            assert(L[23].len() != k.len());
        } else if q == 24 {
            assert(L[24].len() != k.len());
        } else if q == 25 {
            assert(L[25].len() != k.len());
        } else if q == 26 {
            assert(L[26].len() != k.len());
        }
    }
    assert(!L.contains(k));
    }
    {
    let L = duplicate_files_backends();
    assert forall|q: int| 0 <= q < L.len() implies L[q] != k by {
        if q == 0 {
            assert(L[0].len() != k.len());
        } else if q == 1 {
            assert(L[1].len() != k.len());
        } else if q == 2 {
            assert(L[2].len() != k.len());
        } else if q == 3 {
            assert(L[3].len() != k.len());
        } else if q == 4 {
            assert(L[4].len() != k.len());
        } else if q == 5 {
            assert(L[5].len() != k.len());
        }
    }
    assert(!L.contains(k));
    }
}

proof fn lemma_entry_38()
    ensures
        features_table()[38].1.put_stream == !no_put_stream_backends().contains(features_table()[38].0),
        features_table()[38].1.duplicate_files == duplicate_files_backends().contains(features_table()[38].0),
{
    reveal_strlit("cloudinary");
    reveal_strlit("drive");
    reveal_strlit("fichier");
    reveal_strlit("filefabric");
    reveal_strlit("filelu");
    reveal_strlit("gofile");
    reveal_strlit("google photos");
    reveal_strlit("huaweidrive");
    reveal_strlit("iclouddrive");
    reveal_strlit("imagekit");
    reveal_strlit("internetarchive");
    reveal_strlit("internxt");
    reveal_strlit("jottacloud");
    reveal_strlit("linkbox");
    reveal_strlit("mailru");
    reveal_strlit("mega");
    reveal_strlit("onedrive");
    reveal_strlit("opendrive");
    reveal_strlit("pcloud");
    reveal_strlit("pikpak");
    reveal_strlit("premiumizeme");
    reveal_strlit("protondrive");
    reveal_strlit("putio");
    reveal_strlit("qingstor");
    reveal_strlit("quatrix");
    reveal_strlit("shade");
    reveal_strlit("sharefile");
    reveal_strlit("ulozto");
    reveal_strlit("zoho");
    let k = features_table()[38].0;
    assert(k == "premiumizeme"@);
    {
    let L = no_put_stream_backends();
    assert(L[18] == k);
    }
    {
    let L = duplicate_files_backends();
    assert forall|q: int| 0 <= q < L.len() implies L[q] != k by {
        if q == 0 {
            assert(L[0].len() != k.len());
        } else if q == 1 {
            assert(L[1].len() != k.len());
        } else if q == 2 {
            assert(L[2].len() != k.len());
        } else if q == 3 {
            assert(L[3].len() != k.len());
        } else if q == 4 {
            assert(L[4].len() != k.len());
        } else if q == 5 {
            assert(L[5].len() != k.len());
        }
    }
    assert(!L.contains(k));
    }
}

proof fn lemma_entry_39()
    ensures
        features_table()[39].1.put_stream == !no_put_stream_backends().contains(features_table()[39].0),
        features_table()[39].1.duplicate_files == duplicate_files_backends().contains(features_table()[39].0),
{
    reveal_strlit("cloudinary");
    reveal_strlit("drive");
    reveal_strlit("fichier");
    reveal_strlit("filefabric");
    reveal_strlit("filelu");
    reveal_strlit("gofile");
    reveal_strlit("google photos");
    reveal_strlit("huaweidrive");
    reveal_strlit("iclouddrive");
    reveal_strlit("imagekit");
    reveal_strlit("internetarchive");
    reveal_strlit("internxt");
    reveal_strlit("jottacloud");
    reveal_strlit("linkbox");
    reveal_strlit("mailru");
    reveal_strlit("mega");
    reveal_strlit("onedrive");
    reveal_strlit("opendrive");
    reveal_strlit("pcloud");
    reveal_strlit("pikpak");
    reveal_strlit("premiumizeme");
    reveal_strlit("protondrive");
    reveal_strlit("putio");
    reveal_strlit("qingstor");
    reveal_strlit("quatrix");
    reveal_strlit("shade");
    reveal_strlit("sharefile");
    reveal_strlit("ulozto");
    reveal_strlit("zoho");
    let k = features_table()[39].0;
    assert(k == "protondrive"@);
    {
    let L = no_put_stream_backends();
    assert(L[19] == k);
    }
    {
    let L = duplicate_files_backends();
    assert forall|q: int| 0 <= q < L.len() implies L[q] != k by {
        if q == 0 {
            assert(L[0].len() != k.len());
        } else if q == 1 {
            assert(L[1].len() != k.len());
        } else if q == 2 {
            assert(L[2].len() != k.len());
        } else if q == 3 {
            assert(L[3].len() != k.len());
        } else if q == 4 {
            assert(L[4].len() != k.len());
        } else if q == 5 {
            assert(L[5].len() != k.len());
        }
    }
    assert(!L.contains(k));
    }
}

proof fn lemma_entry_40()
    ensures
        features_table()[40].1.put_stream == !no_put_stream_backends().contains(features_table()[40].0),
        features_table()[40].1.duplicate_files == duplicate_files_backends().contains(features_table()[40].0),
{
    reveal_strlit("cloudinary");
    reveal_strlit("drive");
    reveal_strlit("fichier");
    reveal_strlit("filefabric");
    reveal_strlit("filelu");
    reveal_strlit("gofile");
    reveal_strlit("google photos");
    reveal_strlit("huaweidrive");
    reveal_strlit("iclouddrive");
    reveal_strlit("imagekit");
    reveal_strlit("internetarchive");
    reveal_strlit("internxt");
    reveal_strlit("jottacloud");
    reveal_strlit("linkbox");
    reveal_strlit("mailru");
    reveal_strlit("mega");
    reveal_strlit("onedrive");
    reveal_strlit("opendrive");
    reveal_strlit("pcloud");
    reveal_strlit("pikpak");
    reveal_strlit("premiumizeme");
    reveal_strlit("protondrive");
    reveal_strlit("putio");
    reveal_strlit("qingstor");
    reveal_strlit("quatrix");
    reveal_strlit("shade");
    reveal_strlit("sharefile");
    reveal_strlit("ulozto");
    reveal_strlit("zoho");
    let k = features_table()[40].0;
    assert(k == "putio"@);
    {
    let L = no_put_stream_backends();
    assert(L[20] == k);
    }
    {
    let L = duplicate_files_backends();
    assert(L[4] == k);
    }
}

proof fn lemma_entry_41()
    ensures
        features_table()[41].1.put_stream == !no_put_stream_backends().contains(features_table()[41].0),
        features_table()[41].1.duplicate_files == duplicate_files_backends().contains(features_table()[41].0),
{
    reveal_strlit("cloudinary");
    reveal_strlit("drive");
    reveal_strlit("fichier");
    reveal_strlit("filefabric");
    reveal_strlit("filelu");
    reveal_strlit("gofile");
    reveal_strlit("google photos");
    reveal_strlit("huaweidrive");
    reveal_strlit("iclouddrive");
    reveal_strlit("imagekit");
    reveal_strlit("internetarchive");
    reveal_strlit("internxt");
    reveal_strlit("jottacloud");
    reveal_strlit("linkbox");
    reveal_strlit("mailru");
    reveal_strlit("mega");
    reveal_strlit("onedrive");
    reveal_strlit("opendrive");
    reveal_strlit("pcloud");
    reveal_strlit("pikpak");
    reveal_strlit("premiumizeme");
    reveal_strlit("protondrive");
    reveal_strlit("putio");
    reveal_strlit("qingstor");
    reveal_strlit("quatrix");
    reveal_strlit("shade");
    reveal_strlit("sharefile");
    reveal_strlit("ulozto");
    reveal_strlit("zoho");
    let k = features_table()[41].0;
    assert(k == "qingstor"@);
    {
    let L = no_put_stream_backends();
    assert(L[21] == k);
    }
    {
    let L = duplicate_files_backends();
    assert forall|q: int| 0 <= q < L.len() implies L[q] != k by {
        if q == 0 {
            assert(L[0].len() != k.len());
        } else if q == 1 {
            assert(L[1].len() != k.len());
        } else if q == 2 {
            assert(L[2].len() != k.len());
        } else if q == 3 {
            assert(L[3].len() != k.len());
        } else if q == 4 {
            assert(L[4].len() != k.len());
        } else if q == 5 {
            assert(L[5].len() != k.len());
        }
    }
    assert(!L.contains(k));
    }
}

proof fn lemma_entry_42()
    ensures
        features_table()[42].1.put_stream == !no_put_stream_backends().contains(features_table()[42].0),
        features_table()[42].1.duplicate_files == duplicate_files_backends().contains(features_table()[42].0),
{
    reveal_strlit("cloudinary");
    reveal_strlit("drive");
    reveal_strlit("fichier");
    reveal_strlit("filefabric");
    reveal_strlit("filelu");
    reveal_strlit("gofile");
    reveal_strlit("google photos");
    reveal_strlit("huaweidrive");
    reveal_strlit("iclouddrive");
    reveal_strlit("imagekit");
    reveal_strlit("internetarchive");
    reveal_strlit("internxt");
    reveal_strlit("jottacloud");
    reveal_strlit("linkbox");
    reveal_strlit("mailru");
    reveal_strlit("mega");
    reveal_strlit("onedrive");
    reveal_strlit("opendrive");
    reveal_strlit("pcloud");
    reveal_strlit("pikpak");
    reveal_strlit("premiumizeme");
    reveal_strlit("protondrive");
    reveal_strlit("putio");
    reveal_strlit("qingstor");
    reveal_strlit("quatrix");
    reveal_strlit("shade");
    reveal_strlit("sharefile");
    reveal_strlit("ulozto");
    reveal_strlit("zoho");
    let k = features_table()[42].0;
    assert(k == "quatrix"@);
    {
    let L = no_put_stream_backends();
    assert(L[22] == k);
    }
    {
    let L = duplicate_files_backends();
    assert forall|q: int| 0 <= q < L.len() implies L[q] != k by {
        if q == 0 {
            assert(L[0].len() != k.len());
        } else if q == 1 {
            assert(L[1][0] != k[0]);
        } else if q == 2 {
            assert(L[2].len() != k.len());
        } else if q == 3 {
            assert(L[3].len() != k.len());
        } else if q == 4 {
            assert(L[4].len() != k.len());
        } else if q == 5 {
            assert(L[5].len() != k.len());
        }
    }
    assert(!L.contains(k));
    }
}

proof fn lemma_entry_43()
    ensures
        features_table()[43].1.put_stream == !no_put_stream_backends().contains(features_table()[43].0),
        features_table()[43].1.duplicate_files == duplicate_files_backends().contains(features_table()[43].0),
{
    reveal_strlit("cloudinary");
    reveal_strlit("drive");
    reveal_strlit("fichier");
    reveal_strlit("filefabric");
    reveal_strlit("filelu");
    reveal_strlit("gofile");
    reveal_strlit("google photos");
    reveal_strlit("huaweidrive");
    reveal_strlit("iclouddrive");
    reveal_strlit("imagekit");
    reveal_strlit("internetarchive");
    reveal_strlit("internxt");
    reveal_strlit("jottacloud");
    reveal_strlit("linkbox");
    reveal_strlit("mailru");
    reveal_strlit("mega");
    reveal_strlit("onedrive");
    reveal_strlit("opendrive");
    reveal_strlit("pcloud");
    reveal_strlit("pikpak");
    reveal_strlit("premiumizeme");
    reveal_strlit("protondrive");
    reveal_strlit("putio");
    reveal_strlit("qingstor");
    reveal_strlit("quatrix");
    reveal_strlit("s3");
    reveal_strlit("shade");
    reveal_strlit("sharefile");
    reveal_strlit("ulozto");
    reveal_strlit("zoho");
    let k = features_table()[43].0;
    assert(k == "s3"@);
    {
    let L = no_put_stream_backends();
    assert forall|q: int| 0 <= q < L.len() implies L[q] != k by {
        if q == 0 {
            assert(L[0].len() != k.len());
        } else if q == 1 {
            assert(L[1].len() != k.len());
        } else if q == 2 {
            assert(L[2].len() != k.len());
        } else if q == 3 {
            assert(L[3].len() != k.len());
        } else if q == 4 {
            assert(L[4].len() != k.len());
        } else if q == 5 {
            assert(L[5].len() != k.len());
        } else if q == 6 {
            assert(L[6].len() != k.len());
        } else if q == 7 {
            assert(L[7].len() != k.len());
        } else if q == 8 {
            assert(L[8].len() != k.len());
        } else if q == 9 {
            assert(L[9].len() != k.len());
        } else if q == 10 {
            assert(L[10].len() != k.len());
        } else if q == 11 {
            assert(L[11].len() != k.len());
        } else if q == 12 {
            assert(L[12].len() != k.len());
        } else if q == 13 {
            assert(L[13].len() != k.len());
        } else if q == 14 {
            assert(L[14].len() != k.len());
        } else if q == 15 {
            assert(L[15].len() != k.len());
        } else if q == 16 {
            assert(L[16].len() != k.len());
        } else if q == 17 {
            assert(L[17].len() != k.len());
        } else if q == 18 {
            assert(L[18].len() != k.len());
        } else if q == 19 {
            assert(L[19].len() != k.len());
        } else if q == 20 {
            assert(L[20].len() != k.len());
        } else if q == 21 {
            assert(L[21].len() != k.len());
        } else if q == 22 {
            assert(L[22].len() != k.len());
        } else if q == 23 {
            assert(L[23].len() != k.len());
        } else if q == 24 {
            assert(L[24].len() != k.len());
        } else if q == 25 {
            assert(L[25].len() != k.len());
        } else if q == 26 {
            assert(L[26].len() != k.len());
        }
    }
    assert(!L.contains(k));
    }
    {
    let L = duplicate_files_backends();
    assert forall|q: int| 0 <= q < L.len() implies L[q] != k by {
        if q == 0 {
            assert(L[0].len() != k.len());
        } else if q == 1 {
            assert(L[1].len() != k.len());
        } else if q == 2 {
            assert(L[2].len() != k.len());
        } else if q == 3 {
            assert(L[3].len() != k.len());
        } else if q == 4 {
            assert(L[4].len() != k.len());
        } else if q == 5 {
            assert(L[5].len() != k.len());
        }
    }
    assert(!L.contains(k));
    }
}

proof fn lemma_entry_44()
    ensures
        features_table()[44].1.put_stream == !no_put_stream_backends().contains(features_table()[44].0),
        features_table()[44].1.duplicate_files == duplicate_files_backends().contains(features_table()[44].0),
{
    reveal_strlit("cloudinary");
    reveal_strlit("drive");
    reveal_strlit("fichier");
    reveal_strlit("filefabric");
    reveal_strlit("filelu");
    reveal_strlit("gofile");
    reveal_strlit("google photos");
    reveal_strlit("huaweidrive");
    reveal_strlit("iclouddrive");
    reveal_strlit("imagekit");
    reveal_strlit("internetarchive");
    reveal_strlit("internxt");
    reveal_strlit("jottacloud");
    reveal_strlit("linkbox");
    reveal_strlit("mailru");
    reveal_strlit("mega");
    reveal_strlit("onedrive");
    reveal_strlit("opendrive");
    reveal_strlit("pcloud");
    reveal_strlit("pikpak");
    reveal_strlit("premiumizeme");
    reveal_strlit("protondrive");
    reveal_strlit("putio");
    reveal_strlit("qingstor");
    reveal_strlit("quatrix");
    reveal_strlit("seafile");
    reveal_strlit("shade");
    reveal_strlit("sharefile");
    reveal_strlit("ulozto");
    reveal_strlit("zoho");
    let k = features_table()[44].0;
    assert(k == "seafile"@);
    {
    let L = no_put_stream_backends();
    assert forall|q: int| 0 <= q < L.len() implies L[q] != k by {
        if q == 0 {
            assert(L[0].len() != k.len());
        } else if q == 1 {
            assert(L[1][0] != k[0]);
        } else if q == 2 {
            assert(L[2].len() != k.len());
        } else if q == 3 {
            assert(L[3].len() != k.len());
        } else if q == 4 {
            assert(L[4].len() != k.len());
        } else if q == 5 {
            assert(L[5].len() != k.len());
        } else if q == 6 {
            assert(L[6].len() != k.len());
        } else if q == 7 {
            assert(L[7].len() != k.len());
        } else if q == 8 {
            assert(L[8].len() != k.len());
        } else if q == 9 {
            assert(L[9].len() != k.len());
        } else if q == 10 {
            assert(L[10].len() != k.len());
        } else if q == 11 {
            assert(L[11][0] != k[0]);
        } else if q == 12 {
            assert(L[12].len() != k.len());
        } else if q == 13 {
            assert(L[13].len() != k.len());
        } else if q == 14 {
            assert(L[14].len() != k.len());
        } else if q == 15 {
            assert(L[15].len() != k.len());
        } else if q == 16 {
            assert(L[16].len() != k.len());
        } else if q == 17 {
            assert(L[17].len() != k.len());
        } else if q == 18 {
            assert(L[18].len() != k.len());
        } else if q == 19 {
            assert(L[19].len() != k.len());
        } else if q == 20 {
            assert(L[20].len() != k.len());
        } else if q == 21 {
            assert(L[21].len() != k.len());
        } else if q == 22 {
            assert(L[22][0] != k[0]);
        } else if q == 23 {
            assert(L[23].len() != k.len());
        } else if q == 24 {
            assert(L[24].len() != k.len());
        } else if q == 25 {
            assert(L[25].len() != k.len());
        } else if q == 26 {
            assert(L[26].len() != k.len());
        }
    }
    assert(!L.contains(k));
    }
    {
    let L = duplicate_files_backends();
    assert forall|q: int| 0 <= q < L.len() implies L[q] != k by {
        if q == 0 {
            assert(L[0].len() != k.len());
        } else if q == 1 {
            assert(L[1][0] != k[0]);
        } else if q == 2 {
            assert(L[2].len() != k.len());
        } else if q == 3 {
            assert(L[3].len() != k.len());
        } else if q == 4 {
            assert(L[4].len() != k.len());
        } else if q == 5 {
            assert(L[5].len() != k.len());
        }
    }
    assert(!L.contains(k));
    }
}

proof fn lemma_entry_45()
    ensures
        features_table()[45].1.put_stream == !no_put_stream_backends().contains(features_table()[45].0),
        features_table()[45].1.duplicate_files == duplicate_files_backends().contains(features_table()[45].0),
{
    reveal_strlit("cloudinary");
    reveal_strlit("drive");
    reveal_strlit("fichier");
    reveal_strlit("filefabric");
    reveal_strlit("filelu");
    reveal_strlit("gofile");
    reveal_strlit("google photos");
    reveal_strlit("huaweidrive");
    reveal_strlit("iclouddrive");
    reveal_strlit("imagekit");
    reveal_strlit("internetarchive");
    reveal_strlit("internxt");
    reveal_strlit("jottacloud");
    reveal_strlit("linkbox");
    reveal_strlit("mailru");
    reveal_strlit("mega");
    reveal_strlit("onedrive");
    reveal_strlit("opendrive");
    reveal_strlit("pcloud");
    reveal_strlit("pikpak");
    reveal_strlit("premiumizeme");
    reveal_strlit("protondrive");
    reveal_strlit("putio");
    reveal_strlit("qingstor");
    reveal_strlit("quatrix");
    reveal_strlit("sftp");
    reveal_strlit("shade");
    reveal_strlit("sharefile");
    reveal_strlit("ulozto");
    reveal_strlit("zoho");
    let k = features_table()[45].0;
    assert(k == "sftp"@);
    {
    let L = no_put_stream_backends();
    assert forall|q: int| 0 <= q < L.len() implies L[q] != k by {
        if q == 0 {
            assert(L[0].len() != k.len());
        } else if q == 1 {
            assert(L[1].len() != k.len());
        } else if q == 2 {
            assert(L[2].len() != k.len());
        } else if q == 3 {
            assert(L[3].len() != k.len());
        } else if q == 4 {
            assert(L[4].len() != k.len());
        } else if q == 5 {
            assert(L[5].len() != k.len());
        } else if q == 6 {
            assert(L[6].len() != k.len());
        } else if q == 7 {
            assert(L[7].len() != k.len());
        } else if q == 8 {
            assert(L[8].len() != k.len());
        } else if q == 9 {
            assert(L[9].len() != k.len());
        } else if q == 10 {
            assert(L[10].len() != k.len());
        } else if q == 11 {
            assert(L[11].len() != k.len());
        } else if q == 12 {
            assert(L[12].len() != k.len());
        } else if q == 13 {
            assert(L[13][0] != k[0]);
        } else if q == 14 {
            assert(L[14].len() != k.len());
        } else if q == 15 {
            assert(L[15].len() != k.len());
        } else if q == 16 {
            assert(L[16].len() != k.len());
        } else if q == 17 {
            assert(L[17].len() != k.len());
        } else if q == 18 {
            assert(L[18].len() != k.len());
        } else if q == 19 {
            assert(L[19].len() != k.len());
        } else if q == 20 {
            assert(L[20].len() != k.len());
        } else if q == 21 {
            assert(L[21].len() != k.len());
        } else if q == 22 {
            assert(L[22].len() != k.len());
        } else if q == 23 {
            assert(L[23].len() != k.len());
        } else if q == 24 {
            assert(L[24].len() != k.len());
        } else if q == 25 {
            assert(L[25].len() != k.len());
        } else if q == 26 {
            assert(L[26][0] != k[0]);
        }
    }
    assert(!L.contains(k));
    }
    {
    let L = duplicate_files_backends();
    assert forall|q: int| 0 <= q < L.len() implies L[q] != k by {
        if q == 0 {
            assert(L[0].len() != k.len());
        } else if q == 1 {
            assert(L[1].len() != k.len());
        } else if q == 2 {
            assert(L[2].len() != k.len());
        } else if q == 3 {
            assert(L[3][0] != k[0]);
        } else if q == 4 {
            assert(L[4].len() != k.len());
        } else if q == 5 {
            assert(L[5].len() != k.len());
        }
    }
    assert(!L.contains(k));
    }
}

proof fn lemma_entry_46()
    ensures
        features_table()[46].1.put_stream == !no_put_stream_backends().contains(features_table()[46].0),
        features_table()[46].1.duplicate_files == duplicate_files_backends().contains(features_table()[46].0),
{
    reveal_strlit("cloudinary");
    reveal_strlit("drive");
    reveal_strlit("fichier");
    reveal_strlit("filefabric");
    reveal_strlit("filelu");
    reveal_strlit("gofile");
    reveal_strlit("google photos");
    reveal_strlit("huaweidrive");
    reveal_strlit("iclouddrive");
    reveal_strlit("imagekit");
    reveal_strlit("internetarchive");
    reveal_strlit("internxt");
    reveal_strlit("jottacloud");
    reveal_strlit("linkbox");
    reveal_strlit("mailru");
    reveal_strlit("mega");
    reveal_strlit("onedrive");
    reveal_strlit("opendrive");
    reveal_strlit("pcloud");
    reveal_strlit("pikpak");
    reveal_strlit("premiumizeme");
    reveal_strlit("protondrive");
    reveal_strlit("putio");
    reveal_strlit("qingstor");
    reveal_strlit("quatrix");
    reveal_strlit("shade");
    reveal_strlit("sharefile");
    reveal_strlit("ulozto");
    reveal_strlit("zoho");
    let k = features_table()[46].0;
    assert(k == "shade"@);
    {
    let L = no_put_stream_backends();
    assert(L[23] == k);
    }
    {
    let L = duplicate_files_backends();
    assert forall|q: int| 0 <= q < L.len() implies L[q] != k by {
        if q == 0 {
            assert(L[0][0] != k[0]);
        } else if q == 1 {
            assert(L[1].len() != k.len());
        } else if q == 2 {
            assert(L[2].len() != k.len());
        } else if q == 3 {
            assert(L[3].len() != k.len());
        } else if q == 4 {
            assert(L[4][0] != k[0]);
        } else if q == 5 {
            assert(L[5].len() != k.len());
        }
    }
    assert(!L.contains(k));
    }
}

proof fn lemma_entry_47()
    ensures
        features_table()[47].1.put_stream == !no_put_stream_backends().contains(features_table()[47].0),
        features_table()[47].1.duplicate_files == duplicate_files_backends().contains(features_table()[47].0),
{
    reveal_strlit("cloudinary");
    reveal_strlit("drive");
    reveal_strlit("fichier");
    reveal_strlit("filefabric");
    reveal_strlit("filelu");
    reveal_strlit("gofile");
    reveal_strlit("google photos");
    reveal_strlit("huaweidrive");
    reveal_strlit("iclouddrive");
    reveal_strlit("imagekit");
    reveal_strlit("internetarchive");
    reveal_strlit("internxt");
    reveal_strlit("jottacloud");
    reveal_strlit("linkbox");
    reveal_strlit("mailru");
    reveal_strlit("mega");
    reveal_strlit("onedrive");
    reveal_strlit("opendrive");
    reveal_strlit("pcloud");
    reveal_strlit("pikpak");
    reveal_strlit("premiumizeme");
    reveal_strlit("protondrive");
    reveal_strlit("putio");
    reveal_strlit("qingstor");
    reveal_strlit("quatrix");
    reveal_strlit("shade");
    reveal_strlit("sharefile");
    reveal_strlit("ulozto");
    reveal_strlit("zoho");
    let k = features_table()[47].0;
    assert(k == "sharefile"@);
    {
    let L = no_put_stream_backends();
    assert(L[24] == k);
    }
    {
    let L = duplicate_files_backends();
    assert forall|q: int| 0 <= q < L.len() implies L[q] != k by {
        if q == 0 {
            assert(L[0].len() != k.len());
        } else if q == 1 {
            assert(L[1].len() != k.len());
        } else if q == 2 {
            assert(L[2].len() != k.len());
        } else if q == 3 {
            assert(L[3].len() != k.len());
        } else if q == 4 {
            assert(L[4].len() != k.len());
        } else if q == 5 {
            assert(L[5].len() != k.len());
        }
    }
    assert(!L.contains(k));
    }
}

proof fn lemma_entry_48()
    ensures
        features_table()[48].1.put_stream == !no_put_stream_backends().contains(features_table()[48].0),
        features_table()[48].1.duplicate_files == duplicate_files_backends().contains(features_table()[48].0),
{
    reveal_strlit("cloudinary");
    reveal_strlit("drive");
    reveal_strlit("fichier");
    reveal_strlit("filefabric");
    reveal_strlit("filelu");
    reveal_strlit("gofile");
    reveal_strlit("google photos");
    reveal_strlit("huaweidrive");
    reveal_strlit("iclouddrive");
    reveal_strlit("imagekit");
    reveal_strlit("internetarchive");
    reveal_strlit("internxt");
    reveal_strlit("jottacloud");
    reveal_strlit("linkbox");
    reveal_strlit("mailru");
    reveal_strlit("mega");
    reveal_strlit("onedrive");
    reveal_strlit("opendrive");
    reveal_strlit("pcloud");
    reveal_strlit("pikpak");
    reveal_strlit("premiumizeme");
    reveal_strlit("protondrive");
    reveal_strlit("putio");
    reveal_strlit("qingstor");
    reveal_strlit("quatrix");
    reveal_strlit("shade");
    reveal_strlit("sharefile");
    reveal_strlit("sia");
    reveal_strlit("ulozto");
    reveal_strlit("zoho");
    let k = features_table()[48].0;
    assert(k == "sia"@);
    {
    let L = no_put_stream_backends();
    assert forall|q: int| 0 <= q < L.len() implies L[q] != k by {
        if q == 0 {
            assert(L[0].len() != k.len());
        } else if q == 1 {
            assert(L[1].len() != k.len());
        } else if q == 2 {
            assert(L[2].len() != k.len());
        } else if q == 3 {
            assert(L[3].len() != k.len());
        } else if q == 4 {
            assert(L[4].len() != k.len());
        } else if q == 5 {
            assert(L[5].len() != k.len());
        } else if q == 6 {
            assert(L[6].len() != k.len());
        } else if q == 7 {
            assert(L[7].len() != k.len());
        } else if q == 8 {
            assert(L[8].len() != k.len());
        } else if q == 9 {
            assert(L[9].len() != k.len());
        } else if q == 10 {
            assert(L[10].len() != k.len());
        } else if q == 11 {
            assert(L[11].len() != k.len());
        } else if q == 12 {
            assert(L[12].len() != k.len());
        } else if q == 13 {
            assert(L[13].len() != k.len());
        } else if q == 14 {
            assert(L[14].len() != k.len());
        } else if q == 15 {
            assert(L[15].len() != k.len());
        } else if q == 16 {
            assert(L[16].len() != k.len());
        } else if q == 17 {
            assert(L[17].len() != k.len());
        } else if q == 18 {
            assert(L[18].len() != k.len());
        } else if q == 19 {
            assert(L[19].len() != k.len());
        } else if q == 20 {
            assert(L[20].len() != k.len());
        } else if q == 21 {
            assert(L[21].len() != k.len());
        } else if q == 22 {
            assert(L[22].len() != k.len());
        } else if q == 23 {
            assert(L[23].len() != k.len());
        } else if q == 24 {
            assert(L[24].len() != k.len());
        } else if q == 25 {
            assert(L[25].len() != k.len());
        } else if q == 26 {
            assert(L[26].len() != k.len());
        }
    }
    assert(!L.contains(k));
    }
    {
    let L = duplicate_files_backends();
    assert forall|q: int| 0 <= q < L.len() implies L[q] != k by {
        if q == 0 {
            assert(L[0].len() != k.len());
        } else if q == 1 {
            assert(L[1].len() != k.len());
        } else if q == 2 {
            assert(L[2].len() != k.len());
        } else if q == 3 {
            assert(L[3].len() != k.len());
        } else if q == 4 {
            assert(L[4].len() != k.len());
        } else if q == 5 {
            assert(L[5].len() != k.len());
        }
    }
    assert(!L.contains(k));
    }
}

proof fn lemma_entry_49()
    ensures
        features_table()[49].1.put_stream == !no_put_stream_backends().contains(features_table()[49].0),
        features_table()[49].1.duplicate_files == duplicate_files_backends().contains(features_table()[49].0),
{
    reveal_strlit("cloudinary");
    reveal_strlit("drive");
    reveal_strlit("fichier");
    reveal_strlit("filefabric");
    reveal_strlit("filelu");
    reveal_strlit("gofile");
    reveal_strlit("google photos");
    reveal_strlit("huaweidrive");
    reveal_strlit("iclouddrive");
    reveal_strlit("imagekit");
    reveal_strlit("internetarchive");
    reveal_strlit("internxt");
    reveal_strlit("jottacloud");
    reveal_strlit("linkbox");
    reveal_strlit("mailru");
    reveal_strlit("mega");
    reveal_strlit("onedrive");
    reveal_strlit("opendrive");
    reveal_strlit("pcloud");
    reveal_strlit("pikpak");
    reveal_strlit("premiumizeme");
    reveal_strlit("protondrive");
    reveal_strlit("putio");
    reveal_strlit("qingstor");
    reveal_strlit("quatrix");
    reveal_strlit("shade");
    reveal_strlit("sharefile");
    reveal_strlit("smb");
    reveal_strlit("ulozto");
    reveal_strlit("zoho");
    let k = features_table()[49].0;
    assert(k == "smb"@);
    {
    let L = no_put_stream_backends();
    assert forall|q: int| 0 <= q < L.len() implies L[q] != k by {
        if q == 0 {
            assert(L[0].len() != k.len());
        } else if q == 1 {
            assert(L[1].len() != k.len());
        } else if q == 2 {
            assert(L[2].len() != k.len());
        } else if q == 3 {
            assert(L[3].len() != k.len());
        } else if q == 4 {
            assert(L[4].len() != k.len());
        } else if q == 5 {
            assert(L[5].len() != k.len());
        } else if q == 6 {
            assert(L[6].len() != k.len());
        } else if q == 7 {
            assert(L[7].len() != k.len());
        } else if q == 8 {
            assert(L[8].len() != k.len());
        } else if q == 9 {
            assert(L[9].len() != k.len());
        } else if q == 10 {
            assert(L[10].len() != k.len());
        } else if q == 11 {
            assert(L[11].len() != k.len());
        } else if q == 12 {
            assert(L[12].len() != k.len());
        } else if q == 13 {
            assert(L[13].len() != k.len());
        } else if q == 14 {
            assert(L[14].len() != k.len());
        } else if q == 15 {
            assert(L[15].len() != k.len());
        } else if q == 16 {
            assert(L[16].len() != k.len());
        } else if q == 17 {
            assert(L[17].len() != k.len());
        } else if q == 18 {
            assert(L[18].len() != k.len());
        } else if q == 19 {
            assert(L[19].len() != k.len());
        } else if q == 20 {
            assert(L[20].len() != k.len());
        } else if q == 21 {
            assert(L[21].len() != k.len());
        } else if q == 22 {
            assert(L[22].len() != k.len());
        } else if q == 23 {
            assert(L[23].len() != k.len());
        } else if q == 24 {
            assert(L[24].len() != k.len());
        } else if q == 25 {
            assert(L[25].len() != k.len());
        } else if q == 26 {
            assert(L[26].len() != k.len());
        }
    }
    assert(!L.contains(k));
    }
    {
    let L = duplicate_files_backends();
    assert forall|q: int| 0 <= q < L.len() implies L[q] != k by {
        if q == 0 {
            assert(L[0].len() != k.len());
        } else if q == 1 {
            assert(L[1].len() != k.len());
        } else if q == 2 {
            assert(L[2].len() != k.len());
        } else if q == 3 {
            assert(L[3].len() != k.len());
        } else if q == 4 {
            assert(L[4].len() != k.len());
        } else if q == 5 {
            assert(L[5].len() != k.len());
        }
    }
    assert(!L.contains(k));
    }
}

proof fn lemma_entry_50()
    ensures
        features_table()[50].1.put_stream == !no_put_stream_backends().contains(features_table()[50].0),
        features_table()[50].1.duplicate_files == duplicate_files_backends().contains(features_table()[50].0),
{
    reveal_strlit("cloudinary");
    reveal_strlit("drive");
    reveal_strlit("fichier");
    reveal_strlit("filefabric");
    reveal_strlit("filelu");
    reveal_strlit("gofile");
    reveal_strlit("google photos");
    reveal_strlit("huaweidrive");
    reveal_strlit("iclouddrive");
    reveal_strlit("imagekit");
    reveal_strlit("internetarchive");
    reveal_strlit("internxt");
    reveal_strlit("jottacloud");
    reveal_strlit("linkbox");
    reveal_strlit("mailru");
    reveal_strlit("mega");
    reveal_strlit("onedrive");
    reveal_strlit("opendrive");
    reveal_strlit("pcloud");
    reveal_strlit("pikpak");
    reveal_strlit("premiumizeme");
    reveal_strlit("protondrive");
    reveal_strlit("putio");
    reveal_strlit("qingstor");
    reveal_strlit("quatrix");
    reveal_strlit("shade");
    reveal_strlit("sharefile");
    reveal_strlit("storj");
    reveal_strlit("ulozto");
    reveal_strlit("zoho");
    let k = features_table()[50].0;
    assert(k == "storj"@);
    {
    let L = no_put_stream_backends();
    assert forall|q: int| 0 <= q < L.len() implies L[q] != k by {
        if q == 0 {
            assert(L[0].len() != k.len());
        } else if q == 1 {
            assert(L[1].len() != k.len());
        } else if q == 2 {
            assert(L[2].len() != k.len());
        } else if q == 3 {
            assert(L[3].len() != k.len());
        } else if q == 4 {
            assert(L[4].len() != k.len());
        } else if q == 5 {
            assert(L[5].len() != k.len());
        } else if q == 6 {
            assert(L[6].len() != k.len());
        } else if q == 7 {
            assert(L[7].len() != k.len());
        } else if q == 8 {
            assert(L[8].len() != k.len());
        } else if q == 9 {
            assert(L[9].len() != k.len());
        } else if q == 10 {
            assert(L[10].len() != k.len());
        } else if q == 11 {
            assert(L[11].len() != k.len());
        } else if q == 12 {
            assert(L[12].len() != k.len());
        } else if q == 13 {
            assert(L[13].len() != k.len());
        } else if q == 14 {
            assert(L[14].len() != k.len());
        } else if q == 15 {
            assert(L[15].len() != k.len());
        } else if q == 16 {
            assert(L[16].len() != k.len());
        } else if q == 17 {
            assert(L[17].len() != k.len());
        } else if q == 18 {
            assert(L[18].len() != k.len());
        } else if q == 19 {
            assert(L[19].len() != k.len());
        } else if q == 20 {
            assert(L[20][0] != k[0]);
        } else if q == 21 {
            assert(L[21].len() != k.len());
        } else if q == 22 {
            assert(L[22].len() != k.len());
        } else if q == 23 {
            assert(L[23][1] != k[1]);
        } else if q == 24 {
            assert(L[24].len() != k.len());
        } else if q == 25 {
            assert(L[25].len() != k.len());
        } else if q == 26 {
            assert(L[26].len() != k.len());
        }
    }
    assert(!L.contains(k));
    }
    {
    let L = duplicate_files_backends();
    assert forall|q: int| 0 <= q < L.len() implies L[q] != k by {
        if q == 0 {
            assert(L[0][0] != k[0]);
        } else if q == 1 {
            assert(L[1].len() != k.len());
        } else if q == 2 {
            assert(L[2].len() != k.len());
        } else if q == 3 {
            assert(L[3].len() != k.len());
        } else if q == 4 {
            assert(L[4][0] != k[0]);
        } else if q == 5 {
            assert(L[5].len() != k.len());
        }
    }
    assert(!L.contains(k));
    }
}

proof fn lemma_entry_51()
    ensures
        features_table()[51].1.put_stream == !no_put_stream_backends().contains(features_table()[51].0),
        features_table()[51].1.duplicate_files == duplicate_files_backends().contains(features_table()[51].0),
{
    reveal_strlit("cloudinary");
    reveal_strlit("drive");
    reveal_strlit("fichier");
    reveal_strlit("filefabric");
    reveal_strlit("filelu");
    reveal_strlit("gofile");
    reveal_strlit("google photos");
    reveal_strlit("huaweidrive");
    reveal_strlit("iclouddrive");
    reveal_strlit("imagekit");
    reveal_strlit("internetarchive");
    reveal_strlit("internxt");
    reveal_strlit("jottacloud");
    reveal_strlit("linkbox");
    reveal_strlit("mailru");
    reveal_strlit("mega");
    reveal_strlit("onedrive");
    reveal_strlit("opendrive");
    reveal_strlit("pcloud");
    reveal_strlit("pikpak");
    reveal_strlit("premiumizeme");
    reveal_strlit("protondrive");
    reveal_strlit("putio");
    reveal_strlit("qingstor");
    reveal_strlit("quatrix");
    reveal_strlit("shade");
    reveal_strlit("sharefile");
    reveal_strlit("sugarsync");
    reveal_strlit("ulozto");
    reveal_strlit("zoho");
    let k = features_table()[51].0;
    assert(k == "sugarsync"@);
    {
    let L = no_put_stream_backends();
    assert forall|q: int| 0 <= q < L.len() implies L[q] != k by {
        if q == 0 {
            assert(L[0].len() != k.len());
        } else if q == 1 {
            assert(L[1].len() != k.len());
        } else if q == 2 {
            assert(L[2].len() != k.len());
        } else if q == 3 {
            assert(L[3].len() != k.len());
        } else if q == 4 {
            assert(L[4].len() != k.len());
        } else if q == 5 {
            assert(L[5].len() != k.len());
        } else if q == 6 {
            assert(L[6].len() != k.len());
        } else if q == 7 {
            assert(L[7].len() != k.len());
        } else if q == 8 {
            assert(L[8].len() != k.len());
        } else if q == 9 {
            assert(L[9].len() != k.len());
        } else if q == 10 {
            assert(L[10].len() != k.len());
        } else if q == 11 {
            assert(L[11].len() != k.len());
        } else if q == 12 {
            assert(L[12].len() != k.len());
        } else if q == 13 {
            assert(L[13].len() != k.len());
        } else if q == 14 {
            assert(L[14].len() != k.len());
        } else if q == 15 {
            assert(L[15][0] != k[0]);
        } else if q == 16 {
            assert(L[16].len() != k.len());
        } else if q == 17 {
            assert(L[17].len() != k.len());
        } else if q == 18 {
            assert(L[18].len() != k.len());
        } else if q == 19 {
            assert(L[19].len() != k.len());
        } else if q == 20 {
            assert(L[20].len() != k.len());
        } else if q == 21 {
            assert(L[21].len() != k.len());
        } else if q == 22 {
            assert(L[22].len() != k.len());
        } else if q == 23 {
            assert(L[23].len() != k.len());
        } else if q == 24 {
            assert(L[24][1] != k[1]);
        } else if q == 25 {
            assert(L[25].len() != k.len());
        } else if q == 26 {
            assert(L[26].len() != k.len());
        }
    }
    assert(!L.contains(k));
    }
    {
    let L = duplicate_files_backends();
    assert forall|q: int| 0 <= q < L.len() implies L[q] != k by {
        if q == 0 {
            assert(L[0].len() != k.len());
        } else if q == 1 {
            assert(L[1].len() != k.len());
        } else if q == 2 {
            assert(L[2].len() != k.len());
        } else if q == 3 {
            assert(L[3].len() != k.len());
        } else if q == 4 {
            assert(L[4].len() != k.len());
        } else if q == 5 {
            assert(L[5].len() != k.len());
        }
    }
    assert(!L.contains(k));
    }
}

proof fn lemma_entry_52()
    ensures
        features_table()[52].1.put_stream == !no_put_stream_backends().contains(features_table()[52].0),
        features_table()[52].1.duplicate_files == duplicate_files_backends().contains(features_table()[52].0),
{
    reveal_strlit("cloudinary");
    reveal_strlit("drive");
    reveal_strlit("fichier");
    reveal_strlit("filefabric");
    reveal_strlit("filelu");
    reveal_strlit("gofile");
    reveal_strlit("google photos");
    reveal_strlit("huaweidrive");
    reveal_strlit("iclouddrive");
    reveal_strlit("imagekit");
    reveal_strlit("internetarchive");
    reveal_strlit("internxt");
    reveal_strlit("jottacloud");
    reveal_strlit("linkbox");
    reveal_strlit("mailru");
    reveal_strlit("mega");
    reveal_strlit("onedrive");
    reveal_strlit("opendrive");
    reveal_strlit("pcloud");
    reveal_strlit("pikpak");
    reveal_strlit("premiumizeme");
    reveal_strlit("protondrive");
    reveal_strlit("putio");
    reveal_strlit("qingstor");
    reveal_strlit("quatrix");
    reveal_strlit("shade");
    reveal_strlit("sharefile");
    reveal_strlit("swift");
    reveal_strlit("ulozto");
    reveal_strlit("zoho");
    let k = features_table()[52].0;
    assert(k == "swift"@);
    {
    let L = no_put_stream_backends();
    assert forall|q: int| 0 <= q < L.len() implies L[q] != k by {
        if q == 0 {
            assert(L[0].len() != k.len());
        } else if q == 1 {
            assert(L[1].len() != k.len());
        } else if q == 2 {
            assert(L[2].len() != k.len());
        } else if q == 3 {
            assert(L[3].len() != k.len());
        } else if q == 4 {
            assert(L[4].len() != k.len());
        } else if q == 5 {
            assert(L[5].len() != k.len());
        } else if q == 6 {
            assert(L[6].len() != k.len());
        } else if q == 7 {
            assert(L[7].len() != k.len());
        } else if q == 8 {
            assert(L[8].len() != k.len());
        } else if q == 9 {
            assert(L[9].len() != k.len());
        } else if q == 10 {
            assert(L[10].len() != k.len());
        } else if q == 11 {
            assert(L[11].len() != k.len());
        } else if q == 12 {
            assert(L[12].len() != k.len());
        } else if q == 13 {
            assert(L[13].len() != k.len());
        } else if q == 14 {
            assert(L[14].len() != k.len());
        } else if q == 15 {
            assert(L[15].len() != k.len());
        } else if q == 16 {
            assert(L[16].len() != k.len());
        } else if q == 17 {
            assert(L[17].len() != k.len());
        } else if q == 18 {
            assert(L[18].len() != k.len());
        } else if q == 19 {
            assert(L[19].len() != k.len());
        } else if q == 20 {
            assert(L[20][0] != k[0]);
        } else if q == 21 {
            assert(L[21].len() != k.len());
        } else if q == 22 {
            assert(L[22].len() != k.len());
        } else if q == 23 {
            assert(L[23][1] != k[1]);
        } else if q == 24 {
            assert(L[24].len() != k.len());
        } else if q == 25 {
            assert(L[25].len() != k.len());
        } else if q == 26 {
            assert(L[26].len() != k.len());
        }
    }
    assert(!L.contains(k));
    }
    {
    let L = duplicate_files_backends();
    assert forall|q: int| 0 <= q < L.len() implies L[q] != k by {
        if q == 0 {
            assert(L[0][0] != k[0]);
        } else if q == 1 {
            assert(L[1].len() != k.len());
        } else if q == 2 {
            assert(L[2].len() != k.len());
        } else if q == 3 {
            assert(L[3].len() != k.len());
        } else if q == 4 {
            assert(L[4][0] != k[0]);
        } else if q == 5 {
            assert(L[5].len() != k.len());
        }
    }
    assert(!L.contains(k));
    }
}

proof fn lemma_entry_53()
    ensures
        features_table()[53].1.put_stream == !no_put_stream_backends().contains(features_table()[53].0),
        features_table()[53].1.duplicate_files == duplicate_files_backends().contains(features_table()[53].0),
{
    reveal_strlit("cloudinary");
    reveal_strlit("drive");
    reveal_strlit("fichier");
    reveal_strlit("filefabric");
    reveal_strlit("filelu");
    reveal_strlit("gofile");
    reveal_strlit("google photos");
    reveal_strlit("huaweidrive");
    reveal_strlit("iclouddrive");
    reveal_strlit("imagekit");
    reveal_strlit("internetarchive");
    reveal_strlit("internxt");
    reveal_strlit("jottacloud");
    reveal_strlit("linkbox");
    reveal_strlit("mailru");
    reveal_strlit("mega");
    reveal_strlit("onedrive");
    reveal_strlit("opendrive");
    reveal_strlit("pcloud");
    reveal_strlit("pikpak");
    reveal_strlit("premiumizeme");
    reveal_strlit("protondrive");
    reveal_strlit("putio");
    reveal_strlit("qingstor");
    reveal_strlit("quatrix");
    reveal_strlit("shade");
    reveal_strlit("sharefile");
    reveal_strlit("ulozto");
    reveal_strlit("zoho");
    let k = features_table()[53].0;
    assert(k == "ulozto"@);
    {
    let L = no_put_stream_backends();
    assert(L[25] == k);
    }
    {
    let L = duplicate_files_backends();
    assert(L[5] == k);
    }
}

proof fn lemma_entry_54()
    ensures
        features_table()[54].1.put_stream == !no_put_stream_backends().contains(features_table()[54].0),
        features_table()[54].1.duplicate_files == duplicate_files_backends().contains(features_table()[54].0),
{
    reveal_strlit("cloudinary");
    reveal_strlit("drive");
    reveal_strlit("fichier");
    reveal_strlit("filefabric");
    reveal_strlit("filelu");
    reveal_strlit("gofile");
    reveal_strlit("google photos");
    reveal_strlit("huaweidrive");
    reveal_strlit("iclouddrive");
    reveal_strlit("imagekit");
    reveal_strlit("internetarchive");
    reveal_strlit("internxt");
    reveal_strlit("jottacloud");
    reveal_strlit("linkbox");
    reveal_strlit("mailru");
    reveal_strlit("mega");
    reveal_strlit("onedrive");
    reveal_strlit("opendrive");
    reveal_strlit("pcloud");
    reveal_strlit("pikpak");
    reveal_strlit("premiumizeme");
    reveal_strlit("protondrive");
    reveal_strlit("putio");
    reveal_strlit("qingstor");
    reveal_strlit("quatrix");
    reveal_strlit("shade");
    reveal_strlit("sharefile");
    reveal_strlit("ulozto");
    reveal_strlit("yandex");
    reveal_strlit("zoho");
    let k = features_table()[54].0;
    assert(k == "yandex"@);
    {
    let L = no_put_stream_backends();
    assert forall|q: int| 0 <= q < L.len() implies L[q] != k by {
        if q == 0 {
            assert(L[0].len() != k.len());
        } else if q == 1 {
            assert(L[1].len() != k.len());
        } else if q == 2 {
            assert(L[2].len() != k.len());
        } else if q == 3 {
            assert(L[3][0] != k[0]);
        } else if q == 4 {
            assert(L[4].len() != k.len());
        } else if q == 5 {
            assert(L[5].len() != k.len());
        } else if q == 6 {
            assert(L[6].len() != k.len());
        } else if q == 7 {
            assert(L[7].len() != k.len());
        } else if q == 8 {
            assert(L[8].len() != k.len());
        } else if q == 9 {
            assert(L[9].len() != k.len());
        } else if q == 10 {
            assert(L[10].len() != k.len());
        } else if q == 11 {
            assert(L[11].len() != k.len());
        } else if q == 12 {
            assert(L[12][0] != k[0]);
        } else if q == 13 {
            assert(L[13].len() != k.len());
        } else if q == 14 {
            assert(L[14].len() != k.len());
        } else if q == 15 {
            assert(L[15].len() != k.len());
        } else if q == 16 {
            assert(L[16][0] != k[0]);
        } else if q == 17 {
            assert(L[17][0] != k[0]);
        } else if q == 18 {
            assert(L[18].len() != k.len());
        } else if q == 19 {
            assert(L[19].len() != k.len());
        } else if q == 20 {
            assert(L[20].len() != k.len());
        } else if q == 21 {
            assert(L[21].len() != k.len());
        } else if q == 22 {
            assert(L[22].len() != k.len());
        } else if q == 23 {
            assert(L[23].len() != k.len());
        } else if q == 24 {
            assert(L[24].len() != k.len());
        } else if q == 25 {
            assert(L[25][0] != k[0]);
        } else if q == 26 {
            assert(L[26].len() != k.len());
        }
    }
    assert(!L.contains(k));
    }
    {
    let L = duplicate_files_backends();
    assert forall|q: int| 0 <= q < L.len() implies L[q] != k by {
        if q == 0 {
            assert(L[0].len() != k.len());
        } else if q == 1 {
            assert(L[1].len() != k.len());
        } else if q == 2 {
            assert(L[2][0] != k[0]);
        } else if q == 3 {
            assert(L[3].len() != k.len());
        } else if q == 4 {
            assert(L[4].len() != k.len());
        } else if q == 5 {
            assert(L[5][0] != k[0]);
        }
    }
    assert(!L.contains(k));
    }
}

proof fn lemma_entry_55()
    ensures
        features_table()[55].1.put_stream == !no_put_stream_backends().contains(features_table()[55].0),
        features_table()[55].1.duplicate_files == duplicate_files_backends().contains(features_table()[55].0),
{
    reveal_strlit("cloudinary");
    reveal_strlit("drive");
    reveal_strlit("fichier");
    reveal_strlit("filefabric");
    reveal_strlit("filelu");
    reveal_strlit("gofile");
    reveal_strlit("google photos");
    reveal_strlit("huaweidrive");
    reveal_strlit("iclouddrive");
    reveal_strlit("imagekit");
    reveal_strlit("internetarchive");
    reveal_strlit("internxt");
    reveal_strlit("jottacloud");
    reveal_strlit("linkbox");
    reveal_strlit("mailru");
    reveal_strlit("mega");
    reveal_strlit("onedrive");
    reveal_strlit("opendrive");
    reveal_strlit("pcloud");
    reveal_strlit("pikpak");
    reveal_strlit("premiumizeme");
    reveal_strlit("protondrive");
    reveal_strlit("putio");
    reveal_strlit("qingstor");
    reveal_strlit("quatrix");
    reveal_strlit("shade");
    reveal_strlit("sharefile");
    reveal_strlit("ulozto");
    reveal_strlit("zoho");
    let k = features_table()[55].0;
    assert(k == "zoho"@);
    {
    let L = no_put_stream_backends();
    assert(L[26] == k);
    }
    {
    let L = duplicate_files_backends();
    assert forall|q: int| 0 <= q < L.len() implies L[q] != k by {
        if q == 0 {
            assert(L[0].len() != k.len());
        } else if q == 1 {
            assert(L[1].len() != k.len());
        } else if q == 2 {
            assert(L[2].len() != k.len());
        } else if q == 3 {
            assert(L[3][0] != k[0]);
        } else if q == 4 {
            assert(L[4].len() != k.len());
        } else if q == 5 {
            assert(L[5].len() != k.len());
        }
    }
    assert(!L.contains(k));
    }
}

proof fn lemma_entry(i: int)
    requires
        0 <= i < features_table().len(),
    ensures
        features_table()[i].1.put_stream == !no_put_stream_backends().contains(features_table()[i].0),
        features_table()[i].1.duplicate_files == duplicate_files_backends().contains(features_table()[i].0),
{
    if i == 0 {
        lemma_entry_0();
    } else if i == 1 {
        lemma_entry_1();
    } else if i == 2 {
        lemma_entry_2();
    } else if i == 3 {
        lemma_entry_3();
    } else if i == 4 {
        lemma_entry_4();
    } else if i == 5 {
        lemma_entry_5();
    } else if i == 6 {
        lemma_entry_6();
    } else if i == 7 {
        lemma_entry_7();
    } else if i == 8 {
        lemma_entry_8();
    } else if i == 9 {
        lemma_entry_9();
    } else if i == 10 {
        lemma_entry_10();
    } else if i == 11 {
        lemma_entry_11();
    } else if i == 12 {
        lemma_entry_12();
    } else if i == 13 {
        lemma_entry_13();
    } else if i == 14 {
        lemma_entry_14();
    } else if i == 15 {
        lemma_entry_15();
    } else if i == 16 {
        lemma_entry_16();
    } else if i == 17 {
        lemma_entry_17();
    } else if i == 18 {
        lemma_entry_18();
    } else if i == 19 {
        lemma_entry_19();
    } else if i == 20 {
        lemma_entry_20();
    } else if i == 21 {
        lemma_entry_21();
    } else if i == 22 {
        lemma_entry_22();
    } else if i == 23 {
        lemma_entry_23();
    } else if i == 24 {
        lemma_entry_24();
    } else if i == 25 {
        lemma_entry_25();
    } else if i == 26 {
        lemma_entry_26();
    } else if i == 27 {
        lemma_entry_27();
    } else if i == 28 {
        lemma_entry_28();
    } else if i == 29 {
        lemma_entry_29();
    } else if i == 30 {
        lemma_entry_30();
    } else if i == 31 {
        lemma_entry_31();
    } else if i == 32 {
        lemma_entry_32();
    } else if i == 33 {
        lemma_entry_33();
    } else if i == 34 {
        lemma_entry_34();
    } else if i == 35 {
        lemma_entry_35();
    } else if i == 36 {
        lemma_entry_36();
    } else if i == 37 {
        lemma_entry_37();
    } else if i == 38 {
        lemma_entry_38();
    } else if i == 39 {
        lemma_entry_39();
    } else if i == 40 {
        lemma_entry_40();
    } else if i == 41 {
        lemma_entry_41();
    } else if i == 42 {
        lemma_entry_42();
    } else if i == 43 {
        lemma_entry_43();
    } else if i == 44 {
        lemma_entry_44();
    } else if i == 45 {
        lemma_entry_45();
    } else if i == 46 {
        lemma_entry_46();
    } else if i == 47 {
        lemma_entry_47();
    } else if i == 48 {
        lemma_entry_48();
    } else if i == 49 {
        lemma_entry_49();
    } else if i == 50 {
        lemma_entry_50();
    } else if i == 51 {
        lemma_entry_51();
    } else if i == 52 {
        lemma_entry_52();
    } else if i == 53 {
        lemma_entry_53();
    } else if i == 54 {
        lemma_entry_54();
    } else if i == 55 {
        lemma_entry_55();
    }
}

/// Every backend the table knows has the features rclone gives it: it can
/// stream an upload exactly when it is not among the backends without
/// `PutStream`, and it allows duplicate names exactly when it is among the
/// backends with `DuplicateFiles`.
pub proof fn law_features_match_rclone(kind: Seq<char>)
    ensures
        spec_lookup(kind) matches Some(f) ==> f.put_stream == !no_put_stream_backends().contains(kind)
            && f.duplicate_files == duplicate_files_backends().contains(kind),
{
    if exists|i: int| first_match_at(features_table(), kind, i) {
        let c = choose|i: int| first_match_at(features_table(), kind, i);
        lemma_entry(c);
    }
}

} // verus!
