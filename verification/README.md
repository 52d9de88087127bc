# rootle-bitbucket

The Bitbucket Cloud provider for [rootle](https://rootle.dev): browse, preview,
search and clone Bitbucket repositories without cloning anything first. It
speaks rootle's stdio provider protocol, one JSON-RPC message a line, over
Bitbucket Cloud's REST 2.0 API.

## What it supports

Bitbucket Cloud has no code-search index and no blame API, and the handshake
says so (`code_search: false, file_search: true, blame: false`).

- **Browse**: workspaces, repositories, and full recursive trees, walked one
  directory at a time and cached per commit. A tree of more than 25,000 entries
  is cut there, and says `truncated`.
- **Preview**: blobs up to 1 MiB, pinned to commit hashes. The API exposes no git
  object ids, so `<commit>:<path>` is the content id.
- **Revisions**: `repo/refs`, `repo/tree` at a branch, tag or commit hash,
  `repo/log` with a path filter and a limit, and `repo/blob_at`.
- **File find**: `path:` and `extension:` terms within `repo:` or `org:`, as
  path-only hits.
- **Grep**: bare terms within `repo:` or `org:` grep the blobs of the tree. Binary
  blobs are passed over; a line matches where it holds every term, upper or lower
  case. At most 100 files are reported and 200 blobs grepped, and `truncated`
  says that one of these bounds was reached. A workspace is searched in its 20
  most recently updated repositories. With `partial: true`, hits come in a batch per
  repository before the reply.
- **Addresses**: the https clone remote, and pages with `#lines-N` fragments.

## Credentials

Read at the first API call, never at the start:

```
BITBUCKET_USERNAME=you          # with an app password:
BITBUCKET_TOKEN=your-app-password
```

or a bearer token alone in `BITBUCKET_TOKEN`. `--token-env` and `--username-env`
name other variables; `--workspace` (or `BITBUCKET_WORKSPACES`, a list between
commas) serves workspaces that the token cannot discover.

## Layout

- `src/` is the library, verified with Verus: the protocol, the rules and the
  algorithms. It opens neither connections nor files: a request that needs an
  answer names its question (`exchange::Ask`) and goes on with the answer, and
  what it wants written it leaves as effects.
  - `lib.rs`: a line to a request, and a request to its one reply.
  - `handlers`: the methods. `tree` resolves revisions and serves listings,
    `code` searches (`query` is its grammar, `streaming` what holds of every
    search), `blob`, `refs`, `log`, `search`, `urls` and `initialize` are the
    rest, and `task` runs them.
  - `api`, `paging`, `walk`, `discovery`: the API's answers and URLs, page
    aggregation, the directory walk, and the search over workspaces. `full_tree`
    shows that a walk that is not truncated is the full recursive tree.
  - `cache`: which file holds what.
  - `json`, `text`: JSON values and texts over plain sequences.
  - `options`: the command line.
- `app/` is the process around it: stdin and stdout, HTTP, and the cache's files.
- `tests/` run the library against a scripted backend.
