# give_me_dns

A server that gives DNS names to clients with IPv6 addresses. A client connects over TCP, or asks
over HTTP, and gets a name under the server's domain for a time. The DNS server answers for the
names that were given out, with DNSSEC signatures made on the fly.

`src/` is the library, verified with Verus:

- `store`, `task`: how names are added, found and removed, as tasks that ask for one action of the
  database after the other; `database` states what the tasks do to an undisturbed database.
- `dns`, `zone`, `record`, `message`, `name`: the answers of the DNS server; `dns_laws` states what
  holds of them.
- `dnssec`, `key_file`, `crypto`: signatures and the signing key.
- `idprov`, `config`, `clock`, `address`, `net`, `http`, `text`, `bytes`: ids, settings, times, and
  what clients are told.

`app/` is the program around it: the settings file, the sockets, the web server and the database on
disk. It reads the list of words from `lib/idprov/wordlist/words.txt` and the page from
`lib/index.html`. `tests/` runs the library.
