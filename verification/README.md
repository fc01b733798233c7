# pdisks_storage

Storage discovery for pdisks: a canonical graph of disks, partitions,
mappings, volumes, filesystems and mounts, assembled from what native
libraries and command-line tools report.

The library under `src/` is verified with Verus:

- `model` — the canonical graph (`NodeGraph`, whose well-formedness is a
  type invariant), node kinds, sizes and device facts.
- `text`, `collections` — string helpers and a string-keyed map with
  exact specifications.
- `parse` — `lsblk`, sysfs, `findmnt`, LVM report, `/proc/mdstat` and
  `btrfs subvolume list` readers.
- `provider` — provider manifests, the registry of available providers,
  native entry records and their decoding.
- `probe` — stable identities, the per-source graph enrichments, the
  native and command-line assemblies, provider adapters, capability
  detection, and the assembly of all providers into one current state.

`app/` holds what runs on the host: JSON decoding, manifest and fixture
files, the native-library FFI calls, and tool detection. It hands the
library plain values and takes plain values back.
