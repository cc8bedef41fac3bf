# bdstorage

A local file deduplication engine: files of equal size are hashed with
BLAKE3, identical files are moved into a content-addressed vault under
`~/.imprint/store`, and the other copies are replaced by links to the vault
file. The library chooses between a copy-on-write reflink and a hard link;
this program cannot make reflinks (that takes the filesystem's clone ioctl),
so it links only with `--allow-unsafe-hardlinks` and otherwise reports the
group as skipped, leaving its files as they were. An embedded redb database records file metadata, reference counts and
vaulted inodes; `restore` undoes the linking, counts each content's
references down across the run and prunes a vault file when its count
reaches zero. `scan` and dry runs record nothing in the database.

## Layout

- `src/` is the verified library (Verus):
  - `types`: hashes, file metadata, hex rendering of a hash.
  - `paths`: joining path components.
  - `vault`: vault locations, and the step-by-step protocols that move a
    file into the vault and prune it again, with their safety laws.
  - `scanner`: which walked entries take part, grouping by size.
  - `pipeline`: which files are hashed, duplicate groups by hash, the
    reference counts a scan records.
  - `state`: database operations, their encoding into table writes, and a
    model of the tables with read-after-write laws.
  - `batching`: the channel writer and the run ledger that group
    operations into transactions.
  - `dedupe`: the per-group protocol of deduplication (a master that cannot
    be linked is always put back), and the choice of link.
  - `restore`: which files are restored, and the restore run that carries
    each content's count through the run.
  - `tree`: a model of the directory tree that the vault protocols change,
    and the law that pruning a hash undoes vaulting it.
- `app/` is the command-line program: argument parsing, directory walking,
  threads and channels, file operations, the redb database and progress
  output. It drives the library's protocols and performs what they ask.
- `tests/` exercises the library on concrete values.
