//! What the surrounding layer hands the archive engine: paths as plain
//! bytes, an optional password, and a verbosity flag.

use vstd::prelude::*;

verus! {

pub struct ExtractOptions {
    pub zip_file_path: Vec<u8>,
    pub verbose_mode: bool,
    pub destination_path: Vec<u8>,
    pub zip_password: Option<Vec<u8>>,
}

pub struct ZipOptions {
    pub base_path: Vec<u8>,
    pub encrypt_file: bool,
    pub dest_path: Vec<u8>,
    pub password: Option<Vec<u8>>,
    pub verbose_mode: bool,
}

impl ZipOptions {
    pub fn new(
        base_path: Vec<u8>,
        dest_path: Vec<u8>,
        encrypt_file: bool,
        password: Option<Vec<u8>>,
        verbose_mode: bool,
    ) -> (r: Self)
        ensures
            r.base_path@ == base_path@,
            r.dest_path@ == dest_path@,
            r.encrypt_file == encrypt_file,
            r.password == password,
            r.verbose_mode == verbose_mode,
    {
        Self { base_path, dest_path, encrypt_file, password, verbose_mode }
    }

    pub fn base_path(&self) -> (r: &Vec<u8>)
        ensures
            r@ == self.base_path@,
    {
        &self.base_path
    }

    pub fn dest_path(&self) -> (r: &Vec<u8>)
        ensures
            r@ == self.dest_path@,
    {
        &self.dest_path
    }

    pub fn password(&self) -> (r: &Option<Vec<u8>>)
        ensures
            r == self.password,
    {
        &self.password
    }

    pub fn encrypt_file(&self) -> (r: bool)
        ensures
            r == self.encrypt_file,
    {
        self.encrypt_file
    }

    pub fn verbose_mode(&self) -> (r: bool)
        ensures
            r == self.verbose_mode,
    {
        self.verbose_mode
    }
}

impl ExtractOptions {
    pub fn new(
        verbose_mode: bool,
        destination_path: Vec<u8>,
        zip_password: Option<Vec<u8>>,
        zip_file_path: Vec<u8>,
    ) -> (r: Self)
        ensures
            r.verbose_mode == verbose_mode,
            r.destination_path@ == destination_path@,
            r.zip_password == zip_password,
            r.zip_file_path@ == zip_file_path@,
    {
        Self { verbose_mode, destination_path, zip_password, zip_file_path }
    }

    pub fn verbose_mode(&self) -> (r: bool)
        ensures
            r == self.verbose_mode,
    {
        self.verbose_mode
    }

    pub fn destination_path(&self) -> (r: &Vec<u8>)
        ensures
            r@ == self.destination_path@,
    {
        &self.destination_path
    }

    pub fn zip_password(&self) -> (r: &Option<Vec<u8>>)
        ensures
            r == self.zip_password,
    {
        &self.zip_password
    }

    pub fn zip_file_path(&self) -> (r: &Vec<u8>)
        ensures
            r@ == self.zip_file_path@,
    {
        &self.zip_file_path
    }
}

} // verus!
