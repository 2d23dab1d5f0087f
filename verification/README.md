# rustable

Bluetooth Low Energy through Bluez's D-Bus interface.

- `src/` is the verified library: UUIDs and MACs and their text forms, object paths,
  attribute values and flags, the reading of introspection documents, and every decision
  that the local GATT objects (applications, services, characteristics, descriptors) and
  advertisements make when Bluez calls them: which method or property a call is for, what
  is answered, and how the object's state changes. Each function carries its contract; the
  laws that tie functions together are public proof functions.
- `app/` is the asynchronous glue that Verus does not see: the D-Bus connection, the
  messages, the sockets and the tasks that serve registered objects. It hands the library
  plain values and sends what the library decides.
- `tests/` runs the library on concrete values.
