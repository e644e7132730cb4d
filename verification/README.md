# get_proxy

A proxy picker. It fetches public subscription lists, reads the proxy nodes
they hold (vmess, vless, trojan and shadowsocks links, and Clash YAML lists),
keeps the nodes located in the wanted countries, measures them through a v2ray
process, and keeps the fastest one running as a local proxy. A small HTTP
server hands out a proxy auto-configuration file beside it.

## Layout

- `src/` is the verified library. Every function there carries a contract
  that Verus proves:
  - `text`, `decimal`: character-level text and number helpers;
  - `codecs`, `web`: the calls into `textcode`, `base64`, `urlparse`, `url`,
    `regex` and `scraper`, each with the contract it is trusted to meet;
  - `json`: a JSON value with `serde_json`'s indexing semantics, and the
    merge of two objects;
  - `proto`: subscription data into lines, links and YAML entries into nodes;
  - `node`, `launcher`: the v2ray configuration for a node and how its
    process is started;
  - `conf`: the configuration as it is used on this machine;
  - `qqwry`: address text conversions and lookups in a QQWry database;
  - `feeds`, `sources`: the pages and lists that subscriptions come from;
  - `pipeline`: the decisions of the pipeline (refills, probes, verdicts,
    duplicates);
  - `pac`: the auto-configuration file and the server's replies.
- `app/` is the program around it: arguments, logging, files, processes, the
  network, and the tasks that run the pipeline.
- `tests/` runs the library on concrete values.
