use vstd::prelude::*;

verus! {

/// What a session knows of the local client and of the torrent it serves.
pub struct Client {
    /// The local 20-byte peer id.
    pub peer_id: Vec<u8>,
    /// The 20-byte info-hash of the torrent.
    pub info_hash: Vec<u8>,
    /// The torrent's display name.
    pub name: String,
    /// The directory where finished pieces are written.
    pub download_dir: String,
    /// The number of pieces of the torrent.
    pub n_pieces: u32,
}

impl Client {
    pub fn get_peer_id(&self) -> (r: Vec<u8>)
        ensures
            r@ == self.peer_id@,
    {
        self.peer_id.clone()
    }

    pub fn get_info_hash(&self) -> (r: Vec<u8>)
        ensures
            r@ == self.info_hash@,
    {
        self.info_hash.clone()
    }
}

} // verus!
